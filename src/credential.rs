//! The stored credential: a `GITHUB_TOKEN=` line in a `KEY=value` text file,
//! with an environment value that overrides it, and a masked status.
use vstd::prelude::*;
use crate::json::opt_text;
use crate::text::{
    has_prefix, is_space, join_lines, lemma_prefix_trans, lemma_scan_join,
    lemma_raw_lines_plain, lemma_trim_end_prefix, lemma_trim_start_prefix, lines_of, no_newline,
    raw_lines_of, scan_lines, split_lines, split_raw_lines, starts_with, strip_all, strip_cr, texts, trim, trim_end, trim_start,
    trim_start_text, trim_text,
};

verus! {

/// The name of the environment variable, and of the file's key, that holds the token.
pub const TOKEN_VAR: &'static str = "GITHUB_TOKEN";

/// What starts the token's line in the credential file.
pub const TOKEN_KEY: &'static str = "GITHUB_TOKEN=";

/// The characters that start the token's line.
pub open spec fn key() -> Seq<char> {
    TOKEN_KEY@
}

/// Whether a line of the file assigns the token, leading whitespace aside.
pub open spec fn is_token_line(l: Seq<char>) -> bool {
    starts_with(trim_start(l), key())
}

/// The lines of `ls` that do not assign the token, in their order.
pub open spec fn kept_lines(ls: Seq<Seq<char>>) -> Seq<Seq<char>>
    decreases ls.len(),
{
    if ls.len() == 0 {
        seq![]
    } else {
        let k = kept_lines(ls.drop_last());
        if is_token_line(ls.last()) {
            k
        } else {
            k.push(ls.last())
        }
    }
}

/// The file `text` once the token's lines are removed: every other line kept
/// as it stands, each ending with a line feed.
pub open spec fn cleared_contents(text: Seq<char>) -> Seq<char> {
    join_lines(kept_lines(raw_lines_of(text)))
}

/// The file `text` once `token` is stored in it: the other lines kept, and one
/// token line at the end.
pub open spec fn stored_contents(text: Seq<char>, token: Seq<char>) -> Seq<char> {
    cleared_contents(text) + key() + token + seq!['\n']
}

/// The token that a line assigns, trimmed, if it assigns a non-blank one.
pub open spec fn token_in_line(l: Seq<char>) -> Option<Seq<char>> {
    let t = trim(l);
    if starts_with(t, key()) {
        let v = trim(t.subrange(key().len() as int, t.len() as int));
        if v.len() > 0 {
            Some(v)
        } else {
            None
        }
    } else {
        None
    }
}

/// The token of the first line of `ls` that assigns one.
pub open spec fn first_token(ls: Seq<Seq<char>>) -> Option<Seq<char>>
    decreases ls.len(),
{
    if ls.len() == 0 {
        None
    } else {
        match token_in_line(ls[0]) {
            Some(v) => Some(v),
            None => first_token(ls.drop_first()),
        }
    }
}

/// The token in effect: a non-blank environment value as it is, else the first
/// token that the file assigns.
pub open spec fn resolved(env: Option<Seq<char>>, file: Option<Seq<char>>) -> Option<Seq<char>> {
    match env {
        Some(e) if trim(e).len() > 0 => Some(e),
        _ => match file {
            Some(t) => first_token(lines_of(t)),
            None => None,
        },
    }
}

/// The last three characters of `t`, or all of them if it is shorter.
pub open spec fn tail_of(t: Seq<char>) -> Seq<char> {
    if t.len() >= 3 {
        t.subrange(t.len() - 3, t.len() as int)
    } else {
        t
    }
}

/// Whether a token is present, and the last characters of it that may be shown.
#[derive(Clone, Debug, PartialEq, Eq)]
pub struct TokenStatus {
    pub has_token: bool,
    pub tail: Option<String>,
}

/// The lines of `contents` without the token's lines, each followed by a line feed.
fn kept_text(contents: &str) -> (r: String)
    ensures
        r@ == cleared_contents(contents@),
{
    proof {
        reveal_strlit("\n");
    }
    let lines = split_raw_lines(contents);
    let ghost ls = texts(lines@);
    let mut out = String::new();
    assert(ls.subrange(0, 0) =~= seq![]);
    let mut i: usize = 0;
    while i < lines.len()
        invariant
            i <= lines@.len(),
            ls == texts(lines@),
            ls == raw_lines_of(contents@),
            out@ == join_lines(kept_lines(ls.subrange(0, i as int))),
        decreases lines@.len() - i,
    {
        let line = lines[i].as_str();
        assert(ls.subrange(0, i + 1).drop_last() =~= ls.subrange(0, i as int));
        assert(ls.subrange(0, i + 1).last() == line@);
        let lead = trim_start_text(line);
        if !has_prefix(lead, TOKEN_KEY) {
            let ghost before = out@;
            out.append(line);
            out.append("\n");
            let ghost k = kept_lines(ls.subrange(0, i as int));
            proof {
                reveal_strlit("\n");
            }
            assert("\n"@ =~= seq!['\n']);
            assert(k.push(line@).drop_last() =~= k);
            assert(k.push(line@).last() == line@);
            assert(out@ =~= join_lines(k.push(line@)));
        }
        i = i + 1;
    }
    assert(ls.subrange(0, lines@.len() as int) =~= ls);
    out
}

/// The credential file `contents` with `token` stored in it: every line that
/// assigned the token is dropped, the others keep their order, and the file
/// ends with the line `GITHUB_TOKEN=<token>`.
pub fn store_token_in(contents: &str, token: &str) -> (r: String)
    ensures
        r@ == stored_contents(contents@, token@),
{
    proof {
        reveal_strlit("\n");
    }
    let mut out = kept_text(contents);
    out.append(TOKEN_KEY);
    out.append(token);
    out.append("\n");
    out
}

/// The credential file `contents` with the token removed: `None` when no line
/// changes, so that the file need not be written.
pub fn clear_token_in(contents: &str) -> (r: Option<String>)
    ensures
        r is None <==> cleared_contents(contents@) == contents@,
        r matches Some(t) ==> t@ == cleared_contents(contents@),
{
    let out = kept_text(contents);
    if same_string(&out, contents) {
        None
    } else {
        Some(out)
    }
}

fn same_string(a: &String, b: &str) -> (r: bool)
    ensures
        r == (a@ == b@),
{
    crate::text::same_text(a.as_str(), b)
}

/// The token that a line assigns, trimmed, if it assigns a non-blank one.
fn line_token(line: &str) -> (r: Option<String>)
    ensures
        opt_text(r) == token_in_line(line@),
{
    let t = trim_text(line);
    if !has_prefix(t, TOKEN_KEY) {
        return None;
    }
    let n = t.unicode_len();
    let k = TOKEN_KEY.unicode_len();
    let v = trim_text(t.substring_char(k, n));
    if v.unicode_len() > 0 {
        Some(String::from_str(v))
    } else {
        None
    }
}

/// The token in effect. A non-blank `env_override` wins as it is; otherwise
/// the first line of the file `contents` that assigns a non-blank token gives
/// it, trimmed; with no file there is none.
pub fn resolve_token(env_override: Option<&str>, contents: Option<&str>) -> (r: Option<String>)
    ensures
        opt_text(r) == resolved(
            match env_override {
                Some(e) => Some(e@),
                None => None,
            },
            match contents {
                Some(c) => Some(c@),
                None => None,
            },
        ),
        env_override matches Some(e) ==> (trim(e@).len() > 0 ==> opt_text(r) == Some(e@)),
{
    match env_override {
        Some(e) => {
            if trim_text(e).unicode_len() > 0 {
                return Some(String::from_str(e));
            }
        },
        None => {},
    }
    match contents {
        None => None,
        Some(c) => {
            let lines = split_lines(c);
            let ghost ls = texts(lines@);
            let mut i: usize = 0;
            assert(ls.subrange(0, ls.len() as int) =~= ls);
            while i < lines.len()
                invariant
                    i <= lines@.len(),
                    ls == texts(lines@),
                    ls == lines_of(c@),
                    env_override matches Some(e) ==> trim(e@).len() == 0,
                    contents == Some(c),
                    first_token(ls) == first_token(ls.subrange(i as int, ls.len() as int)),
                decreases lines@.len() - i,
            {
                let found = line_token(lines[i].as_str());
                assert(ls.subrange(i as int, ls.len() as int)[0] == lines@[i as int]@);
                assert(ls.subrange(i as int, ls.len() as int).drop_first() =~= ls.subrange(
                    i + 1,
                    ls.len() as int,
                ));
                if found.is_some() {
                    assert(first_token(ls) == opt_text(found));
                    return found;
                }
                i = i + 1;
            }
            None
        },
    }
}

/// What may be shown of `token`: whether there is one, and at most its last
/// three characters.
pub fn token_status(token: Option<String>) -> (r: TokenStatus)
    ensures
        r.has_token == token is Some,
        opt_text(r.tail) == match token {
            Some(t) => Some(tail_of(t@)),
            None => None,
        },
        r.tail matches Some(t) ==> t@.len() <= 3,
{
    match token {
        None => TokenStatus { has_token: false, tail: None },
        Some(t) => {
            let n = t.as_str().unicode_len();
            let from = if n >= 3 {
                n - 3
            } else {
                0
            };
            let tail = String::from_str(t.as_str().substring_char(from, n));
            assert(t@.subrange(0, n as int) =~= t@);
            TokenStatus { has_token: true, tail: Some(tail) }
        },
    }
}

/// The kept lines are lines of the file that do not assign the token.
proof fn lemma_kept(ls: Seq<Seq<char>>)
    requires
        forall|j: int| 0 <= j < ls.len() ==> no_newline(#[trigger] ls[j]),
    ensures
        forall|j: int|
            0 <= j < kept_lines(ls).len() ==> !is_token_line(#[trigger] kept_lines(ls)[j])
                && no_newline(kept_lines(ls)[j]),
    decreases ls.len(),
{
    if ls.len() > 0 {
        let init = ls.drop_last();
        assert forall|j: int| 0 <= j < init.len() implies no_newline(#[trigger] init[j]) by {
            assert(init[j] == ls[j]);
        }
        lemma_kept(init);
        let k = kept_lines(init);
        assert(no_newline(ls[ls.len() - 1]));
        if !is_token_line(ls.last()) {
            assert forall|j: int| 0 <= j < k.push(ls.last()).len() implies !is_token_line(
                #[trigger] k.push(ls.last())[j],
            ) && no_newline(k.push(ls.last())[j]) by {
                if j < k.len() {
                    assert(k.push(ls.last())[j] == k[j]);
                }
            }
        }
    }
}

/// A line that does not assign the token still assigns none once a carriage
/// return at its end is dropped.
proof fn lemma_no_token_after_strip(l: Seq<char>)
    requires
        !is_token_line(l),
    ensures
        token_in_line(strip_cr(l)) is None,
{
    let m = strip_cr(l);
    assert(starts_with(l, m)) by {
        assert(l.subrange(0, m.len() as int) =~= m);
    }
    lemma_trim_start_prefix(m, l);
    lemma_trim_end_prefix(trim_start(m));
    if starts_with(trim(m), key()) {
        lemma_prefix_trans(trim(m), trim_start(m), trim_start(l));
        lemma_prefix_trans(key(), trim(m), trim_start(l));
    }
}

/// Lines that assign no token do not change which token comes first.
proof fn lemma_first_token_skip(ms: Seq<Seq<char>>, rest: Seq<Seq<char>>)
    requires
        forall|j: int| 0 <= j < ms.len() ==> token_in_line(#[trigger] ms[j]) is None,
    ensures
        first_token(ms + rest) == first_token(rest),
    decreases ms.len(),
{
    if ms.len() > 0 {
        assert((ms + rest)[0] == ms[0]);
        assert((ms + rest).drop_first() =~= ms.drop_first() + rest);
        assert forall|j: int| 0 <= j < ms.drop_first().len() implies token_in_line(
            #[trigger] ms.drop_first()[j],
        ) is None by {
            assert(ms.drop_first()[j] == ms[j + 1]);
        }
        lemma_first_token_skip(ms.drop_first(), rest);
    } else {
        assert(ms + rest =~= rest);
    }
}

/// The lines of the cleared file, none of which assigns a token.
proof fn lemma_cleared_lines(text: Seq<char>)
    ensures
        scan_lines(cleared_contents(text)) == (
            strip_all(kept_lines(raw_lines_of(text))),
            Seq::<char>::empty(),
        ),
        forall|j: int|
            0 <= j < strip_all(kept_lines(raw_lines_of(text))).len() ==> token_in_line(
                #[trigger] strip_all(kept_lines(raw_lines_of(text)))[j],
            ) is None,
        forall|j: int|
            0 <= j < kept_lines(raw_lines_of(text)).len() ==> no_newline(
                #[trigger] kept_lines(raw_lines_of(text))[j],
            ),
{
    let k = kept_lines(raw_lines_of(text));
    lemma_raw_lines_plain(text);
    lemma_kept(raw_lines_of(text));
    lemma_scan_join(k);
    assert forall|j: int| 0 <= j < strip_all(k).len() implies token_in_line(
        #[trigger] strip_all(k)[j],
    ) is None by {
        lemma_no_token_after_strip(k[j]);
    }
}

/// Once the token is removed from the file, and with no environment value,
/// no token is in effect.
pub proof fn lemma_clear_then_resolve(text: Seq<char>)
    ensures
        resolved(None, Some(cleared_contents(text))) == None::<Seq<char>>,
{
    lemma_cleared_lines(text);
    let ms = strip_all(kept_lines(raw_lines_of(text)));
    lemma_first_token_skip(ms, seq![]);
    assert(ms + seq![] =~= ms);
}

/// Once a token is stored in the file, and with no environment value, that
/// very token is in effect, for a token on one line with no whitespace at
/// either end.
pub proof fn lemma_store_then_resolve(text: Seq<char>, token: Seq<char>)
    requires
        token.len() > 0,
        !is_space(token[0]),
        !is_space(token.last()),
        no_newline(token),
    ensures
        resolved(None, Some(stored_contents(text, token))) == Some(token),
{
    reveal_strlit("GITHUB_TOKEN=");
    lemma_cleared_lines(text);
    let k = kept_lines(raw_lines_of(text));
    let x = key() + token;
    assert(no_newline(x)) by {
        assert forall|i: int| 0 <= i < x.len() implies x[i] != '\n' by {
            if i >= key().len() {
                assert(x[i] == token[i - key().len()]);
            }
        }
    }
    let all = k.push(x);
    assert forall|j: int| 0 <= j < all.len() implies no_newline(#[trigger] all[j]) by {
        if j < k.len() {
            assert(all[j] == k[j]);
        }
    }
    assert(all.drop_last() =~= k);
    assert(stored_contents(text, token) =~= join_lines(all));
    lemma_scan_join(all);
    assert(x.last() == token.last());
    assert(strip_cr(x) == x);
    assert(strip_all(all) =~= strip_all(k) + seq![x]);
    assert(lines_of(stored_contents(text, token)) == strip_all(k) + seq![x]);
    lemma_first_token_skip(strip_all(k), seq![x]);
    assert(trim_start(x) == x);
    assert(trim_end(x) == x);
    assert(x.subrange(0, key().len() as int) =~= key());
    assert(x.subrange(key().len() as int, x.len() as int) =~= token);
    assert(trim_start(token) == token);
    assert(trim_end(token) == token);
    assert(seq![x].drop_first() =~= Seq::<Seq<char>>::empty());
}

} // verus!
