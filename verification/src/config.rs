use vstd::prelude::*;
use vstd::string::StrSliceExecFns;
use vstd::string::StringExecFns;
use crate::LocaleError;
use crate::text::spec_is_space;
use crate::text::is_space_char;
use crate::text::str_eq;

verus! {

// The configuration file is free-form structured text out of which exactly
// one construct is read: `debug{ ... }` blocks, whose interiors are
// concatenated and scanned for `key=value` lines. A block opens with the
// literal `debug{` and closes at the first `}` that follows the opener at a
// distance of at least one character; blocks are taken leftmost first and
// do not overlap. This is deliberately not a parser for the whole format.

/// The literal `debug{` stands at position `i` of `s`.
pub open spec fn spec_open_at(s: Seq<char>, i: int) -> bool {
    &&& 0 <= i
    &&& i + 6 <= s.len()
    &&& s[i] == 'd'
    &&& s[i + 1] == 'e'
    &&& s[i + 2] == 'b'
    &&& s[i + 3] == 'u'
    &&& s[i + 4] == 'g'
    &&& s[i + 5] == '{'
}

/// First position at or after `j` holding `}`, or `s.len()` when none is left.
pub open spec fn spec_close_from(s: Seq<char>, j: int) -> int
    decreases s.len() - j
        when 0 <= j <= s.len()
{
    if j >= s.len() {
        s.len() as int
    } else if s[j] == '}' {
        j
    } else {
        spec_close_from(s, j + 1)
    }
}

pub proof fn lemma_close_from_bounds(s: Seq<char>, j: int)
    requires
        0 <= j <= s.len(),
    ensures
        j <= spec_close_from(s, j) <= s.len(),
        spec_close_from(s, j) < s.len() ==> s[spec_close_from(s, j)] == '}',
        forall|k: int| j <= k < spec_close_from(s, j) ==> s[k] != '}',
    decreases s.len() - j,
{
    if j < s.len() && s[j] != '}' {
        lemma_close_from_bounds(s, j + 1);
    }
}

pub proof fn lemma_close_from_none_later(s: Seq<char>, j1: int, j2: int)
    requires
        0 <= j1 <= j2 <= s.len(),
        spec_close_from(s, j1) == s.len(),
    ensures
        spec_close_from(s, j2) == s.len(),
{
    lemma_close_from_bounds(s, j1);
    lemma_close_from_bounds(s, j2);
    if spec_close_from(s, j2) < s.len() {
        assert(s[spec_close_from(s, j2)] == '}');
        assert(false);
    }
}

/// A block match starts at `i`: the opener, at least one interior
/// character, and a closing brace further right.
pub open spec fn spec_match_at(s: Seq<char>, i: int) -> bool {
    &&& spec_open_at(s, i)
    &&& i + 7 <= s.len()
    &&& spec_close_from(s, i + 7) < s.len()
}

/// The concatenated interiors of every block match at or after `p`.
pub open spec fn spec_interiors_from(s: Seq<char>, p: int) -> Seq<char>
    decreases s.len() - p
        when 0 <= p <= s.len()
        via spec_interiors_from_decreases
{
    if p >= s.len() {
        Seq::empty()
    } else if spec_match_at(s, p) {
        s.subrange(p + 6, spec_close_from(s, p + 7)) + spec_interiors_from(
            s,
            spec_close_from(s, p + 7) + 1,
        )
    } else {
        spec_interiors_from(s, p + 1)
    }
}

#[via_fn]
proof fn spec_interiors_from_decreases(s: Seq<char>, p: int) {
    if 0 <= p < s.len() && spec_match_at(s, p) {
        lemma_close_from_bounds(s, p + 7);
    }
}

pub proof fn lemma_interiors_empty(s: Seq<char>, p: int)
    requires
        0 <= p <= s.len(),
        forall|q: int| p <= q < s.len() ==> !spec_match_at(s, q),
    ensures
        spec_interiors_from(s, p) == Seq::<char>::empty(),
    decreases s.len() - p,
{
    if p < s.len() {
        assert(!spec_match_at(s, p));
        lemma_interiors_empty(s, p + 1);
    }
}

/// Does `debug{` stand at `p`?
fn open_at(s: &str, p: usize) -> (r: bool)
    requires
        p + 6 <= s@.len(),
        s@.len() <= usize::MAX,
    ensures
        r == spec_open_at(s@, p as int),
{
    s.get_char(p) == 'd' && s.get_char(p + 1) == 'e' && s.get_char(p + 2) == 'b' && s.get_char(
        p + 3,
    ) == 'u' && s.get_char(p + 4) == 'g' && s.get_char(p + 5) == '{'
}

/// First `}` at or after `j0`, or the text's length.
fn find_close(s: &str, j0: usize) -> (j: usize)
    requires
        j0 <= s@.len(),
    ensures
        j == spec_close_from(s@, j0 as int),
        j0 <= j <= s@.len(),
{
    let n = s.unicode_len();
    let mut j: usize = j0;
    while j < n
        invariant
            j0 <= j <= n,
            n == s@.len(),
            spec_close_from(s@, j0 as int) == spec_close_from(s@, j as int),
        decreases n - j,
    {
        if s.get_char(j) == '}' {
            return j;
        }
        j = j + 1;
    }
    j
}

/// The concatenated interiors of every `debug{...}` block of `text`,
/// leftmost block first.
pub fn extract_debug_blocks(text: &str) -> (r: String)
    ensures
        r@ == spec_interiors_from(text@, 0),
{
    let n = text.unicode_len();
    let mut out = String::new();
    let mut p: usize = 0;
    proof {
        assert(out@ + spec_interiors_from(text@, 0) =~= spec_interiors_from(text@, 0));
    }
    while p < n
        invariant
            p <= n,
            n == text@.len(),
            out@ + spec_interiors_from(text@, p as int) == spec_interiors_from(text@, 0),
        decreases n - p,
    {
        if n >= 7 && p <= n - 7 && open_at(text, p) {
            let j = find_close(text, p + 7);
            if j < n {
                proof {
                    assert(spec_match_at(text@, p as int));
                }
                let ghost out0 = out@;
                let piece = text.substring_char(p + 6, j);
                out.append(piece);
                proof {
                    assert(out@ + spec_interiors_from(text@, j + 1) =~= out0 + (text@.subrange(
                        p + 6,
                        j as int,
                    ) + spec_interiors_from(text@, j + 1)));
                }
                p = j + 1;
            } else {
                proof {
                    assert forall|q: int| p <= q < n implies !spec_match_at(text@, q) by {
                        if spec_match_at(text@, q) {
                            lemma_close_from_none_later(text@, p + 7, q + 7);
                        }
                    }
                    lemma_interiors_empty(text@, p as int);
                    assert(out@ + spec_interiors_from(text@, p as int) =~= out@);
                }
                return out;
            }
        } else {
            proof {
                assert(!spec_match_at(text@, p as int));
            }
            p = p + 1;
        }
    }
    proof {
        assert(out@ + spec_interiors_from(text@, n as int) =~= out@);
    }
    out
}

// A parameter line is a maximal run of non-whitespace characters closed by
// a newline (optionally preceded by a carriage return), holding an `=`
// that leaves both a non-empty key and a non-empty value. The key ends at
// the first `=` past its first character; everything between that `=` and
// the line end is the value. Runs lacking any of this are skipped whole.

/// First position at or after `i` holding whitespace, or `t.len()`.
pub open spec fn spec_run_end(t: Seq<char>, i: int) -> int
    decreases t.len() - i
        when 0 <= i <= t.len()
{
    if i >= t.len() {
        t.len() as int
    } else if spec_is_space(t[i]) {
        i
    } else {
        spec_run_end(t, i + 1)
    }
}

pub proof fn lemma_run_end_bounds(t: Seq<char>, i: int)
    requires
        0 <= i <= t.len(),
    ensures
        i <= spec_run_end(t, i) <= t.len(),
    decreases t.len() - i,
{
    if i < t.len() && !spec_is_space(t[i]) {
        lemma_run_end_bounds(t, i + 1);
    }
}

/// The run ending at `w` is closed by a line end: `\n`, or `\r\n`.
pub open spec fn spec_line_end_at(t: Seq<char>, w: int) -> bool {
    ||| (w < t.len() && t[w] == '\n')
    ||| (w + 1 < t.len() && t[w] == '\r' && t[w + 1] == '\n')
}

/// First `=` at or after `k` and before `w`, or `w` when none.
pub open spec fn spec_eq_pos(t: Seq<char>, k: int, w: int) -> int
    decreases w - k
        when 0 <= k <= w <= t.len()
{
    if k >= w {
        w
    } else if t[k] == '=' {
        k
    } else {
        spec_eq_pos(t, k + 1, w)
    }
}

/// First index at or after `i` whose key equals `k`, or the length.
pub open spec fn spec_key_index_from(m: Seq<(Seq<char>, Seq<char>)>, k: Seq<char>, i: int) -> int
    decreases m.len() - i
        when 0 <= i <= m.len()
{
    if i >= m.len() {
        m.len() as int
    } else if m[i].0 == k {
        i
    } else {
        spec_key_index_from(m, k, i + 1)
    }
}

/// Insertion with overwrite: a duplicate key keeps the position of its
/// first occurrence and takes the new value; a fresh key goes to the end.
pub open spec fn spec_assoc_insert(
    m: Seq<(Seq<char>, Seq<char>)>,
    k: Seq<char>,
    v: Seq<char>,
) -> Seq<(Seq<char>, Seq<char>)> {
    let i = spec_key_index_from(m, k, 0);
    if i < m.len() {
        m.update(i, (k, v))
    } else {
        m.push((k, v))
    }
}

/// The value bound to `k`, when `k` is bound.
pub open spec fn spec_lookup(m: Seq<(Seq<char>, Seq<char>)>, k: Seq<char>) -> Option<Seq<char>> {
    let i = spec_key_index_from(m, k, 0);
    if i < m.len() {
        Some(m[i].1)
    } else {
        None
    }
}

/// One pass of the `key=value` scan over the interior text `t`, from
/// position `p`, with the mapping built so far in `acc`.
pub open spec fn spec_params_scan(
    t: Seq<char>,
    p: int,
    acc: Seq<(Seq<char>, Seq<char>)>,
) -> Seq<(Seq<char>, Seq<char>)>
    decreases t.len() - p
        when 0 <= p <= t.len()
        via spec_params_scan_decreases
{
    if p >= t.len() {
        acc
    } else if spec_is_space(t[p]) {
        spec_params_scan(t, p + 1, acc)
    } else {
        let w = spec_run_end(t, p);
        if spec_line_end_at(t, w) && p + 2 <= w && spec_eq_pos(t, p + 1, w - 1) < w - 1 {
            let k = spec_eq_pos(t, p + 1, w - 1);
            spec_params_scan(t, w, spec_assoc_insert(acc, t.subrange(p, k), t.subrange(k + 1, w)))
        } else {
            spec_params_scan(t, w, acc)
        }
    }
}

#[via_fn]
proof fn spec_params_scan_decreases(t: Seq<char>, p: int, acc: Seq<(Seq<char>, Seq<char>)>) {
    if 0 <= p < t.len() && !spec_is_space(t[p]) {
        lemma_run_end_bounds(t, p + 1);
    }
}

/// The mapping extracted from raw configuration text: the `key=value`
/// lines of the concatenated `debug{...}` interiors, a later duplicate
/// key overwriting the earlier value in place.
pub open spec fn spec_extract_params(s: Seq<char>) -> Seq<(Seq<char>, Seq<char>)> {
    spec_params_scan(spec_interiors_from(s, 0), 0, Seq::empty())
}

/// The debug-localization flag is on: the extracted mapping binds
/// `testLocalization:b` to the literal `yes`.
pub open spec fn spec_debug_enabled(s: Seq<char>) -> bool {
    spec_lookup(spec_extract_params(s), "testLocalization:b"@) == Some("yes"@)
}

/// The key/value characters of a parameter vector.
pub open spec fn spec_pairs_view(v: Seq<(String, String)>) -> Seq<(Seq<char>, Seq<char>)> {
    Seq::new(v.len(), |i: int| (v[i].0@, v[i].1@))
}

/// First position at or after `i0` holding whitespace, or the length.
fn run_end(t: &str, i0: usize) -> (w: usize)
    requires
        i0 <= t@.len(),
    ensures
        w == spec_run_end(t@, i0 as int),
        i0 <= w <= t@.len(),
{
    let n = t.unicode_len();
    let mut i: usize = i0;
    while i < n
        invariant
            i0 <= i <= n,
            n == t@.len(),
            spec_run_end(t@, i0 as int) == spec_run_end(t@, i as int),
        decreases n - i,
    {
        if is_space_char(t.get_char(i)) {
            return i;
        }
        i = i + 1;
    }
    i
}

/// First `=` at or after `k0` and before `w`, or `w`.
fn eq_pos(t: &str, k0: usize, w: usize) -> (k: usize)
    requires
        k0 <= w <= t@.len(),
    ensures
        k == spec_eq_pos(t@, k0 as int, w as int),
        k0 <= k <= w,
{
    let mut k: usize = k0;
    while k < w
        invariant
            k0 <= k <= w,
            w <= t@.len(),
            spec_eq_pos(t@, k0 as int, w as int) == spec_eq_pos(t@, k as int, w as int),
        decreases w - k,
    {
        if t.get_char(k) == '=' {
            return k;
        }
        k = k + 1;
    }
    k
}

/// Is the run ending at `w` closed by `\n` or `\r\n`?
fn line_end_at(t: &str, w: usize) -> (r: bool)
    requires
        w <= t@.len(),
    ensures
        r == spec_line_end_at(t@, w as int),
{
    let n = t.unicode_len();
    if w < n && t.get_char(w) == '\n' {
        true
    } else if w < n && t.get_char(w) == '\r' {
        w + 1 < n && t.get_char(w + 1) == '\n'
    } else {
        false
    }
}

/// Binds `key` to `value`, overwriting in place when `key` is present.
fn insert_param(params: &mut Vec<(String, String)>, key: String, value: String)
    ensures
        spec_pairs_view(final(params)@) == spec_assoc_insert(
            spec_pairs_view(old(params)@),
            key@,
            value@,
        ),
{
    let ghost m = spec_pairs_view(params@);
    let mut i: usize = 0;
    while i < params.len()
        invariant
            i <= params@.len(),
            params@ == old(params)@,
            m == spec_pairs_view(params@),
            spec_key_index_from(m, key@, 0) == spec_key_index_from(m, key@, i as int),
        decreases params@.len() - i,
    {
        if str_eq(params[i].0.as_str(), key.as_str()) {
            proof {
                assert(m[i as int].0 == key@);
                assert(spec_key_index_from(m, key@, i as int) == i);
            }
            let ghost ki = i as int;
            params[i] = (key, value);
            proof {
                assert(spec_pairs_view(params@) =~= m.update(ki, (key@, value@)));
            }
            return;
        }
        i = i + 1;
    }
    params.push((key, value));
    proof {
        assert(spec_key_index_from(m, key@, m.len() as int) == m.len());
        assert(spec_pairs_view(params@) =~= m.push((key@, value@)));
    }
}

/// The value bound to `key`, when `key` is bound.
pub fn get_param<'a>(params: &'a Vec<(String, String)>, key: &str) -> (r: Option<&'a String>)
    ensures
        match r {
            Some(v) => spec_lookup(spec_pairs_view(params@), key@) == Some(v@),
            None => spec_lookup(spec_pairs_view(params@), key@) is None,
        },
{
    let ghost m = spec_pairs_view(params@);
    let mut i: usize = 0;
    while i < params.len()
        invariant
            i <= params@.len(),
            m == spec_pairs_view(params@),
            spec_key_index_from(m, key@, 0) == spec_key_index_from(m, key@, i as int),
        decreases params@.len() - i,
    {
        if str_eq(params[i].0.as_str(), key) {
            proof {
                assert(m[i as int].0 == key@);
                assert(spec_key_index_from(m, key@, i as int) == i);
            }
            return Some(&params[i].1);
        }
        i = i + 1;
    }
    None
}

/// Extracts the debug parameter mapping out of raw configuration text.
/// No block and no well-shaped line both yield an empty mapping, never an
/// error.
pub fn extract_debug_parameters(text: &str) -> (r: Vec<(String, String)>)
    ensures
        spec_pairs_view(r@) == spec_extract_params(text@),
{
    let interior = extract_debug_blocks(text);
    let t = interior.as_str();
    let n = t.unicode_len();
    let mut out: Vec<(String, String)> = Vec::new();
    let mut p: usize = 0;
    proof {
        assert(spec_pairs_view(out@) =~= Seq::<(Seq<char>, Seq<char>)>::empty());
    }
    while p < n
        invariant
            p <= n,
            n == t@.len(),
            t@ == spec_interiors_from(text@, 0),
            spec_params_scan(t@, p as int, spec_pairs_view(out@)) == spec_extract_params(text@),
        decreases n - p,
    {
        let c = t.get_char(p);
        if is_space_char(c) {
            p = p + 1;
        } else {
            let w = run_end(t, p);
            proof {
                lemma_run_end_bounds(t@, p + 1);
            }
            let le = line_end_at(t, w);
            if le && p < w - 1 {
                let k = eq_pos(t, p + 1, w - 1);
                if k < w - 1 {
                    let ghost acc0 = spec_pairs_view(out@);
                    let key = t.substring_char(p, k).to_owned();
                    let value = t.substring_char(k + 1, w).to_owned();
                    insert_param(&mut out, key, value);
                    proof {
                        assert(spec_params_scan(t@, p as int, acc0) == spec_params_scan(
                            t@,
                            w as int,
                            spec_assoc_insert(acc0, t@.subrange(p as int, k as int), t@.subrange(
                                k + 1,
                                w as int,
                            )),
                        ));
                    }
                    p = w;
                } else {
                    p = w;
                }
            } else {
                p = w;
            }
        }
    }
    out
}

/// Reads the debug parameter mapping out of the configuration file's text.
/// `content` is `None` when the file is missing or unreadable, the one
/// recoverable failure here; callers treat it as "feature unavailable".
pub fn read_debug_config(content: &Option<String>) -> (r: Result<Vec<(String, String)>, LocaleError>)
    ensures
        match content {
            Some(text) => match r {
                Ok(params) => spec_pairs_view(params@) == spec_extract_params(text@),
                Err(_) => false,
            },
            None => match r {
                Ok(_) => false,
                Err(e) => e is NotFound,
            },
        },
{
    match content {
        Some(text) => Ok(extract_debug_parameters(text.as_str())),
        None => Err(LocaleError::NotFound),
    }
}

/// The flag check on raw configuration text: true exactly when the
/// extracted mapping binds `testLocalization:b` to `yes`.
pub fn debug_flag_set(text: &str) -> (r: bool)
    ensures
        r == spec_debug_enabled(text@),
{
    let params = extract_debug_parameters(text);
    match get_param(&params, "testLocalization:b") {
        Some(v) => str_eq(v.as_str(), "yes"),
        None => false,
    }
}

} // verus!
