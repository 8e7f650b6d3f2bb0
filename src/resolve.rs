//! Turning the user's input tokens into the ordered list of files to join.
//!
//! A token is a glob pattern when it holds `*`, `?` or `[`; any other token
//! is a literal path and is kept as given, in its place. A pattern's syntax
//! is checked with the glob parser; what it matches on disk is found by the
//! caller and handed in as a list of [`GlobMatch`] entries.
use vstd::prelude::*;
use vstd::utf8::{encode_utf8, encode_utf8_decode_utf8};
use crate::error::MovcatError;

verus! {

/// One entry that a glob pattern matched on disk.
#[derive(Debug, Clone)]
pub struct GlobMatch {
    pub path: String,
    /// Whether the entry is a regular file; other entries are skipped.
    pub is_file: bool,
}

/// The glob crate's complaint about a pattern text, whole or per path
/// component, if it has one.
pub uninterp spec fn pattern_fault(p: Seq<char>) -> Option<Seq<char>>;

/// Relies on `glob::glob`: before any directory is read it parses the whole
/// pattern and then each of its path components, and fails, with a
/// message, exactly when one of them is malformed. The returned walker is
/// dropped unread, so nothing is read from disk here.
#[verifier::external_body]
fn parse_pattern(token: &String) -> (r: Option<String>)
    ensures
        r is None <==> pattern_fault(token@) is None,
        r is Some ==> pattern_fault(token@) == Some(r->Some_0@),
{
    match glob::glob(token.as_str()) {
        Ok(_) => None,
        Err(e) => Some(e.msg.to_string()),
    }
}

pub open spec fn fault_of(f: Option<String>) -> Option<Seq<char>> {
    match f {
        Some(m) => Some(m@),
        None => None,
    }
}

pub open spec fn is_wildcard_byte(b: u8) -> bool {
    b == 42u8 || b == 63u8 || b == 91u8
}

/// A token is a glob pattern when its text holds `*`, `?` or `[`.
pub open spec fn is_glob(tok: Seq<char>) -> bool {
    exists|i: int| 0 <= i < encode_utf8(tok).len() && is_wildcard_byte(#[trigger] encode_utf8(tok)[i])
}

/// Lexicographic order on byte strings: the order of `str`.
pub open spec fn bytes_le(a: Seq<u8>, b: Seq<u8>) -> bool
    decreases a.len(),
{
    if a.len() == 0 {
        true
    } else if b.len() == 0 {
        false
    } else if a[0] != b[0] {
        a[0] < b[0]
    } else {
        bytes_le(a.drop_first(), b.drop_first())
    }
}

/// Paths are ordered as strings: by their UTF-8 bytes.
pub open spec fn path_le(a: String, b: String) -> bool {
    bytes_le(encode_utf8(a@), encode_utf8(b@))
}

pub open spec fn paths_sorted(s: Seq<String>) -> bool {
    forall|i: int, j: int| 0 <= i < j < s.len() ==> path_le(#[trigger] s[i], #[trigger] s[j])
}

/// The matched entries that are regular files, in enumeration order.
pub open spec fn regular_files(ms: Seq<GlobMatch>) -> Seq<String>
    decreases ms.len(),
{
    if ms.len() == 0 {
        seq![]
    } else {
        let rest = regular_files(ms.drop_last());
        if ms.last().is_file {
            rest.push(ms.last().path)
        } else {
            rest
        }
    }
}

/// A token resolves without error: it is a literal path, or a well-formed
/// pattern that matched at least one regular file.
pub open spec fn token_ok(tok: String, fault: Option<Seq<char>>, ms: Seq<GlobMatch>) -> bool {
    !is_glob(tok@) || (fault is None && regular_files(ms).len() > 0)
}

/// `e` is the error a token raises: `InvalidPattern` with the parser's
/// message for a malformed pattern, else `NoMatch` when it matched no
/// regular file.
pub open spec fn token_fails_with(
    tok: String,
    fault: Option<Seq<char>>,
    ms: Seq<GlobMatch>,
    e: MovcatError,
) -> bool {
    is_glob(tok@) && match fault {
        Some(m) => e is InvalidPattern && e->InvalidPattern_pattern == tok
            && e->InvalidPattern_reason@ == m,
        None => regular_files(ms).len() == 0 && e == MovcatError::NoMatch { pattern: tok },
    }
}

/// How many paths a token that raises no error contributes.
pub open spec fn token_len(tok: String, ms: Seq<GlobMatch>) -> int {
    if !is_glob(tok@) {
        1
    } else {
        regular_files(ms).len() as int
    }
}

/// `seg` is what a token that raises no error contributes: the token itself
/// for a literal path, and for a pattern the regular files it matched,
/// sorted, whatever order they were enumerated in.
pub open spec fn token_yields(tok: String, ms: Seq<GlobMatch>, seg: Seq<String>) -> bool {
    if !is_glob(tok@) {
        seg == seq![tok]
    } else {
        seg.to_multiset() == regular_files(ms).to_multiset() && paths_sorted(seg)
    }
}

/// `paths` is the concatenation, token by token in input order, of what each
/// token contributes; `mss[i]` is what token `i` matched on disk.
pub open spec fn resolves_to(toks: Seq<String>, mss: Seq<Vec<GlobMatch>>, paths: Seq<String>) -> bool
    decreases toks.len(),
{
    if toks.len() == 0 {
        paths.len() == 0
    } else {
        let ms = mss[toks.len() - 1]@;
        let k = paths.len() - token_len(toks.last(), ms);
        0 <= k && token_yields(toks.last(), ms, paths.subrange(k, paths.len() as int))
            && resolves_to(toks.drop_last(), mss.take(toks.len() - 1), paths.subrange(0, k))
    }
}

pub open spec fn all_tokens_ok(toks: Seq<String>, mss: Seq<Vec<GlobMatch>>) -> bool {
    forall|i: int|
        0 <= i < toks.len() ==> token_ok(#[trigger] toks[i], pattern_fault(toks[i]@), mss[i]@)
}

/// `e` is the error of the first token that raises one.
pub open spec fn first_token_error(toks: Seq<String>, mss: Seq<Vec<GlobMatch>>, e: MovcatError) -> bool {
    exists|k: int|
        0 <= k < toks.len() && all_tokens_ok(toks.take(k), mss) && token_fails_with(
            #[trigger] toks[k],
            pattern_fault(toks[k]@),
            mss[k]@,
            e,
        )
}

/// Relies on `slice::sort` under the `Ord` of `String`, which compares the
/// UTF-8 bytes lexicographically: the vector becomes a sorted permutation of
/// itself.
#[verifier::external_body]
fn sort_paths(v: &mut Vec<String>)
    ensures
        final(v)@.to_multiset() == old(v)@.to_multiset(),
        paths_sorted(final(v)@),
{
    v.sort();
}

/// Whether a token is a glob pattern rather than a literal path.
pub fn is_glob_pattern(token: &String) -> (r: bool)
    ensures
        r == is_glob(token@),
{
    let b = token.as_str().as_bytes();
    proof {
        assert(b@ == encode_utf8(token@));
    }
    let mut i: usize = 0;
    while i < b.len()
        invariant
            b@ == encode_utf8(token@),
            0 <= i <= b@.len(),
            forall|j: int| 0 <= j < i ==> !is_wildcard_byte(#[trigger] b@[j]),
        decreases b.len() - i,
    {
        let c = b[i];
        if c == 42u8 || c == 63u8 || c == 91u8 {
            assert(is_wildcard_byte(encode_utf8(token@)[i as int]));
            return true;
        }
        i = i + 1;
    }
    false
}

/// The regular files among a pattern's matches, in enumeration order.
fn keep_regular_files(ms: &Vec<GlobMatch>) -> (r: Vec<String>)
    ensures
        r@ == regular_files(ms@),
{
    let mut r: Vec<String> = Vec::new();
    let mut i: usize = 0;
    while i < ms.len()
        invariant
            0 <= i <= ms@.len(),
            r@ == regular_files(ms@.take(i as int)),
        decreases ms.len() - i,
    {
        proof {
            assert(ms@.take(i as int + 1).drop_last() == ms@.take(i as int));
        }
        if ms[i].is_file {
            r.push(ms[i].path.clone());
        }
        i = i + 1;
    }
    proof {
        assert(ms@.take(ms@.len() as int) == ms@);
    }
    r
}

/// Expands one token, given the glob parser's complaint about it (`None`
/// when it has none; not consulted for a literal path) and what it matched
/// on disk. A literal path stands for itself; a pattern stands for the
/// regular files it matched, sorted by path, and fails when its syntax is
/// malformed or when it matched no regular file.
pub fn expand_token(token: &String, fault: &Option<String>, matches: &Vec<GlobMatch>) -> (r: Result<
    Vec<String>,
    MovcatError,
>)
    ensures
        r is Ok <==> token_ok(*token, fault_of(*fault), matches@),
        match r {
            Ok(seg) => seg@.len() == token_len(*token, matches@) && token_yields(
                *token,
                matches@,
                seg@,
            ),
            Err(e) => token_fails_with(*token, fault_of(*fault), matches@, e),
        },
{
    if !is_glob_pattern(token) {
        let mut seg: Vec<String> = Vec::new();
        seg.push(token.clone());
        proof {
            assert(seg@ == seq![*token]);
        }
        return Ok(seg);
    }
    match fault {
        Some(reason) => Err(
            MovcatError::InvalidPattern { pattern: token.clone(), reason: reason.clone() },
        ),
        None => {
            let mut files = keep_regular_files(matches);
            if files.len() == 0 {
                return Err(MovcatError::NoMatch { pattern: token.clone() });
            }
            let ghost before = files@;
            sort_paths(&mut files);
            proof {
                before.to_multiset_ensures();
                files@.to_multiset_ensures();
            }
            Ok(files)
        },
    }
}

proof fn lemma_resolves_step(
    toks: Seq<String>,
    mss: Seq<Vec<GlobMatch>>,
    paths: Seq<String>,
    seg: Seq<String>,
    i: int,
)
    requires
        0 <= i < toks.len(),
        toks.len() <= mss.len(),
        resolves_to(toks.take(i), mss.take(i), paths),
        seg.len() == token_len(toks[i], mss[i]@),
        token_yields(toks[i], mss[i]@, seg),
    ensures
        resolves_to(toks.take(i + 1), mss.take(i + 1), paths + seg),
{
    let t = toks.take(i + 1);
    let x = mss.take(i + 1);
    let all = paths + seg;
    assert(t.last() == toks[i]);
    assert(x[t.len() - 1] == mss[i]);
    assert(all.subrange(paths.len() as int, all.len() as int) == seg);
    assert(all.subrange(0, paths.len() as int) == paths);
    assert(t.drop_last() == toks.take(i));
    assert(x.take(t.len() - 1) == mss.take(i));
}

/// Resolves the input tokens, in order, into the list of files to join.
///
/// `matches[i]` is what `patterns[i]` matched on disk when it is a
/// pattern; each pattern's syntax is checked by the glob parser. Literal
/// paths keep their place exactly; each pattern contributes its regular
/// files sorted by path; tokens are never reordered relative to each other.
/// The first token that raises an error decides the result, and an empty
/// input fails with `NoInput`.
pub fn expand_glob_patterns(patterns: &Vec<String>, matches: &Vec<Vec<GlobMatch>>) -> (r: Result<
    Vec<String>,
    MovcatError,
>)
    requires
        patterns.len() == matches.len(),
    ensures
        patterns@.len() == 0 ==> r == Err::<Vec<String>, MovcatError>(MovcatError::NoInput),
        r is Ok <==> patterns@.len() > 0 && all_tokens_ok(patterns@, matches@),
        match r {
            Ok(paths) => resolves_to(patterns@, matches@, paths@) && paths@.len() > 0,
            Err(e) => patterns@.len() == 0 || first_token_error(patterns@, matches@, e),
        },
{
    let mut all: Vec<String> = Vec::new();
    let mut i: usize = 0;
    while i < patterns.len()
        invariant
            patterns@.len() == matches@.len(),
            0 <= i <= patterns@.len(),
            all_tokens_ok(patterns@.take(i as int), matches@),
            resolves_to(patterns@.take(i as int), matches@.take(i as int), all@),
            i > 0 ==> all@.len() > 0,
        decreases patterns.len() - i,
    {
        let token = &patterns[i];
        let fault = if is_glob_pattern(token) {
            parse_pattern(token)
        } else {
            None
        };
        proof {
            assert(is_glob(token@) ==> fault_of(fault) == pattern_fault(token@));
        }
        match expand_token(token, &fault, &matches[i]) {
            Ok(seg) => {
                proof {
                    lemma_resolves_step(patterns@, matches@, all@, seg@, i as int);
                    assert forall|j: int| 0 <= j < i + 1 implies token_ok(
                        #[trigger] patterns@.take(i + 1)[j],
                        pattern_fault(patterns@.take(i + 1)[j]@),
                        matches@[j]@,
                    ) by {
                        if j < i {
                            assert(patterns@.take(i as int)[j] == patterns@[j]);
                        }
                    }
                }
                let mut seg = seg;
                all.append(&mut seg);
            },
            Err(e) => {
                proof {
                    assert(token_fails_with(
                        patterns@[i as int],
                        pattern_fault(patterns@[i as int]@),
                        matches@[i as int]@,
                        e,
                    ));
                    assert(!token_ok(
                        patterns@[i as int],
                        pattern_fault(patterns@[i as int]@),
                        matches@[i as int]@,
                    ));
                    assert(!all_tokens_ok(patterns@, matches@));
                    assert(first_token_error(patterns@, matches@, e));
                }
                return Err(e);
            },
        }
        i = i + 1;
    }
    proof {
        assert(patterns@.take(patterns@.len() as int) == patterns@);
        assert(matches@.take(matches@.len() as int) == matches@);
    }
    if all.len() == 0 {
        return Err(MovcatError::NoInput);
    }
    Ok(all)
}

/// Literal paths keep the caller's order: when no token holds a wildcard,
/// every token resolves without error and the resolved list is the input
/// list itself, never sorted.
pub proof fn lemma_literal_tokens_keep_order(
    toks: Seq<String>,
    mss: Seq<Vec<GlobMatch>>,
    paths: Seq<String>,
)
    requires
        toks.len() == mss.len(),
        forall|i: int| 0 <= i < toks.len() ==> !is_glob(#[trigger] toks[i]@),
    ensures
        all_tokens_ok(toks, mss),
        resolves_to(toks, mss, paths) ==> paths == toks,
    decreases toks.len(),
{
    if toks.len() > 0 {
        let n = toks.len() - 1;
        assert forall|i: int| 0 <= i < n implies !is_glob(#[trigger] toks.drop_last()[i]@) by {
            assert(toks.drop_last()[i] == toks[i]);
        }
        if resolves_to(toks, mss, paths) {
            let k = paths.len() - 1;
            lemma_literal_tokens_keep_order(toks.drop_last(), mss.take(n), paths.subrange(0, k));
            assert(paths.subrange(k, paths.len() as int) == seq![toks[n]]);
            assert(paths == paths.subrange(0, k) + paths.subrange(k, paths.len() as int));
            assert(toks == toks.drop_last().push(toks[n]));
        } else {
            lemma_literal_tokens_keep_order(toks.drop_last(), mss.take(n), paths);
        }
    }
}

proof fn lemma_bytes_le_antisymmetric(a: Seq<u8>, b: Seq<u8>)
    requires
        bytes_le(a, b),
        bytes_le(b, a),
    ensures
        a == b,
    decreases a.len(),
{
    if a.len() > 0 && b.len() > 0 {
        lemma_bytes_le_antisymmetric(a.drop_first(), b.drop_first());
        assert(a == seq![a[0]] + a.drop_first());
        assert(b == seq![b[0]] + b.drop_first());
    } else {
        assert(a =~= b);
    }
}

/// Two paths that each sort before the other are the same text.
proof fn lemma_path_le_antisymmetric(a: String, b: String)
    requires
        path_le(a, b),
        path_le(b, a),
    ensures
        a@ == b@,
{
    lemma_bytes_le_antisymmetric(encode_utf8(a@), encode_utf8(b@));
    encode_utf8_decode_utf8(a@);
    encode_utf8_decode_utf8(b@);
}

/// A pattern's expansion does not depend on the order in which the
/// filesystem enumerated its matches: two sorted lists of the same paths
/// agree entry by entry.
pub proof fn lemma_sorted_expansion_unique(s1: Seq<String>, s2: Seq<String>)
    requires
        s1.to_multiset() == s2.to_multiset(),
        paths_sorted(s1),
        paths_sorted(s2),
    ensures
        s1.len() == s2.len(),
        forall|i: int| 0 <= i < s1.len() ==> (#[trigger] s1[i])@ == s2[i]@,
    decreases s1.len(),
{
    s1.to_multiset_ensures();
    s2.to_multiset_ensures();
    if s1.len() > 0 {
        assert(s1.contains(s1[0]));
        assert(s1.to_multiset().count(s1[0]) > 0);
        assert(s2.contains(s1[0]));
        assert(s2.contains(s2[0]));
        assert(s2.to_multiset().count(s2[0]) > 0);
        assert(s1.contains(s2[0]));
        let j = choose|j: int| 0 <= j < s2.len() && s2[j] == s1[0];
        let k = choose|k: int| 0 <= k < s1.len() && s1[k] == s2[0];
        if j > 0 && k > 0 {
            assert(path_le(s2[0], s2[j]));
            assert(path_le(s1[0], s1[k]));
            lemma_path_le_antisymmetric(s1[0], s2[0]);
        }
        let t = if j == 0 {
            s2
        } else {
            s2.update(j, s2[0]).update(0, s2[j])
        };
        assert(forall|x: int| 0 <= x < t.len() ==> (#[trigger] t[x])@ == s2[x]@);
        if j > 0 {
            let u = s2.update(j, s2[0]);
            vstd::seq_lib::to_multiset_update(s2, j, s2[0]);
            vstd::seq_lib::to_multiset_update(u, 0, s2[j]);
            assert(t.to_multiset() =~= s2.to_multiset());
        }
        assert(t[0] == s1[0]);
        t.to_multiset_ensures();
        let r1 = s1.drop_first();
        let r2 = t.drop_first();
        assert(s1.remove(0) == r1);
        assert(t.remove(0) == r2);
        assert(r1.to_multiset() == r2.to_multiset());
        assert(paths_sorted(r1)) by {
            assert forall|a: int, b: int| 0 <= a < b < r1.len() implies path_le(
                #[trigger] r1[a],
                #[trigger] r1[b],
            ) by {
                assert(r1[a] == s1[a + 1] && r1[b] == s1[b + 1]);
            }
        }
        assert(paths_sorted(r2)) by {
            assert forall|a: int, b: int| 0 <= a < b < r2.len() implies path_le(
                #[trigger] r2[a],
                #[trigger] r2[b],
            ) by {
                assert(r2[a] == t[a + 1] && r2[b] == t[b + 1]);
                assert(path_le(s2[a + 1], s2[b + 1]));
            }
        }
        lemma_sorted_expansion_unique(r1, r2);
        assert forall|i: int| 0 <= i < s1.len() implies (#[trigger] s1[i])@ == s2[i]@ by {
            if i > 0 {
                assert(s1[i] == r1[i - 1]);
                assert(t[i] == r2[i - 1]);
            }
        }
    }
}

/// When a pattern's regular files are all different paths, its expansion
/// is strictly ascending: each path sorts before the next and no two paths
/// are the same text.
pub proof fn lemma_distinct_matches_strictly_ascending(ms: Seq<GlobMatch>, seg: Seq<String>)
    requires
        seg.to_multiset() == regular_files(ms).to_multiset(),
        paths_sorted(seg),
        forall|p: int, q: int|
            0 <= p < q < regular_files(ms).len() ==> (#[trigger] regular_files(ms)[p])@
                != (#[trigger] regular_files(ms)[q])@,
    ensures
        forall|i: int, j: int|
            0 <= i < j < seg.len() ==> path_le(#[trigger] seg[i], #[trigger] seg[j]) && seg[i]@
                != seg[j]@,
{
    let rf = regular_files(ms);
    assert(rf.no_duplicates()) by {
        assert forall|p: int, q: int| 0 <= p < rf.len() && 0 <= q < rf.len() && p != q implies rf[p]
            != rf[q] by {
            if p < q {
                assert(rf[p]@ != rf[q]@);
            } else {
                assert(rf[q]@ != rf[p]@);
            }
        }
    }
    rf.lemma_multiset_has_no_duplicates();
    seg.to_multiset_ensures();
    rf.to_multiset_ensures();
    assert forall|x: String| seg.to_multiset().contains(x) implies seg.to_multiset().count(x)
        == 1 by {}
    seg.lemma_multiset_has_no_duplicates_conv();
    assert forall|i: int, j: int| 0 <= i < j < seg.len() implies path_le(
        #[trigger] seg[i],
        #[trigger] seg[j],
    ) && seg[i]@ != seg[j]@ by {
        assert(seg.contains(seg[i]));
        assert(seg.to_multiset().count(seg[i]) > 0);
        assert(rf.contains(seg[i]));
        assert(seg.contains(seg[j]));
        assert(seg.to_multiset().count(seg[j]) > 0);
        assert(rf.contains(seg[j]));
        let p = choose|p: int| 0 <= p < rf.len() && rf[p] == seg[i];
        let q = choose|q: int| 0 <= q < rf.len() && rf[q] == seg[j];
        assert(seg[i] != seg[j]);
        if p < q {
            assert(rf[p]@ != rf[q]@);
        } else {
            assert(p != q);
            assert(rf[q]@ != rf[p]@);
        }
    }
}

} // verus!
