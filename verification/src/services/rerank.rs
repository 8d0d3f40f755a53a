//! Reranking of retrieved snippets: code entities get a boost, the best
//! scores come first, near duplicates are dropped and only the top few are
//! kept.
//!
//! Similarities are handled as integers: a similarity `s` stands here as
//! `s` times `SIMILARITY_SCALE`, rounded, so that order and boost are exact.
use vstd::prelude::*;
use vstd::set_lib::{lemma_int_range, lemma_len_subset, set_int_range};

use crate::parser::entity::{entity_type_text, EntityType};
use crate::text::{str_eq, string_of, to_chars, word_key};

verus! {

broadcast use vstd::set::group_set_axioms;

/// How many candidates the vector search fetches before reranking.
pub const FETCH_K: usize = 20;

/// How many snippets are kept after reranking.
pub const TOP_K: usize = 5;

/// The scale of similarities: a similarity of 1 is this many units.
pub const SIMILARITY_SCALE: u32 = 1000000;

/// The least similarity of a candidate, in units of `SIMILARITY_SCALE`.
pub const MIN_SIMILARITY: u32 = 500000;

/// The boost of a code entity, in units of `SIMILARITY_SCALE`.
pub const CODE_BOOST: u32 = 150000;

/// How many leading characters of two snippets are compared to find near
/// duplicates.
pub const DEDUP_CHARS: usize = 200;

/// A retrieved snippet as reranking sees it: its similarity in units of
/// `SIMILARITY_SCALE`, its entity type, if any, and its content.
#[derive(Debug, Clone)]
pub struct Candidate {
    pub score: u32,
    pub entity_type: Option<String>,
    pub content: String,
}

/// Entity types of code, which get the boost.
pub open spec fn is_code_type(t: Seq<char>) -> bool {
    t == "function"@ || t == "method"@ || t == "struct"@ || t == "class"@ || t == "enum"@ || t
        == "trait"@ || t == "interface"@ || t == "module"@ || t == "constant"@ || t == "variable"@
        || t == "type_alias"@
}

/// Whether an entity type is one of code: anything but a file or an import.
pub open spec fn is_code_entity(t: EntityType) -> bool {
    t != EntityType::File && t != EntityType::Import
}

/// The score of a candidate after the boost of code entities.
pub open spec fn boosted(c: Candidate) -> int {
    c.score as int + match c.entity_type {
        Some(t) => if is_code_type(t@) {
            CODE_BOOST as int
        } else {
            0
        },
        None => 0,
    }
}

/// The leading characters by which near duplicates are found.
pub open spec fn dedup_key(c: Candidate) -> Seq<char> {
    if c.content@.len() <= DEDUP_CHARS {
        c.content@
    } else {
        c.content@.take(DEDUP_CHARS as int)
    }
}

/// Whether candidate `i` comes before candidate `j`: a higher boosted score
/// first, and among equal scores the one retrieved first.
pub open spec fn ranks_before(cs: Seq<Candidate>, i: int, j: int) -> bool {
    boosted(cs[i]) > boosted(cs[j]) || (boosted(cs[i]) == boosted(cs[j]) && i < j)
}

/// Candidate `i` repeats the key of a candidate of `r` that ranks before it.
pub open spec fn repeats_taken(cs: Seq<Candidate>, r: Seq<usize>, i: int) -> bool {
    exists|k: int|
        0 <= k < r.len() && ranks_before(cs, r[k] as int, i) && #[trigger] dedup_key(cs[r[k] as int])
            == dedup_key(cs[i])
}

/// `r` (indices into `cs`) is the reranking of `cs`: the candidates taken
/// in order of rank, each one dropped whose leading characters repeat those
/// of one taken before it, stopping after `TOP_K`. Stated as: at most
/// `TOP_K` valid indices in rank order with distinct keys, where every
/// candidate left out repeats the key of one taken before it or ranks after
/// the last of a full list.
pub open spec fn is_reranking(cs: Seq<Candidate>, r: Seq<usize>) -> bool {
    &&& r.len() <= TOP_K
    &&& forall|k: int| 0 <= k < r.len() ==> r[k] < cs.len()
    &&& forall|a: int, b: int|
        0 <= a < b < r.len() ==> ranks_before(cs, r[a] as int, r[b] as int)
    &&& forall|a: int, b: int|
        0 <= a < b < r.len() ==> dedup_key(cs[r[a] as int]) != dedup_key(cs[r[b] as int])
    &&& forall|i: int|
        0 <= i < cs.len() && !r.contains(i as usize) ==> #[trigger] repeats_taken(cs, r, i) || (r.len() == TOP_K && ranks_before(
            cs,
            r[r.len() - 1] as int,
            i,
        ))
}

/// Law of the code boost: a candidate whose entity type is the text of an
/// entity type of code (function, method, struct, class, enum, trait,
/// interface, module, constant, variable, type alias) scores its similarity
/// plus `CODE_BOOST`; one without an entity type, or whose entity type is
/// the text of no entity type of code (a file, an import, anything else),
/// scores its similarity alone.
pub proof fn lemma_code_boost(c: Candidate, t: EntityType)
    ensures
        is_code_entity(t) ==> (c.entity_type matches Some(s) && s@ == entity_type_text(t) ==> boosted(c)
            == c.score + CODE_BOOST),
        c.entity_type is None ==> boosted(c) == c.score,
        c.entity_type matches Some(s) && (forall|u: EntityType|
            is_code_entity(u) ==> s@ != #[trigger] entity_type_text(u)) ==> boosted(c) == c.score,
{
    reveal_strlit("function");
    reveal_strlit("method");
    reveal_strlit("struct");
    reveal_strlit("class");
    reveal_strlit("enum");
    reveal_strlit("trait");
    reveal_strlit("interface");
    reveal_strlit("module");
    reveal_strlit("constant");
    reveal_strlit("variable");
    reveal_strlit("type_alias");
    reveal_strlit("file");
    reveal_strlit("import");
    assert(word_key("function"@) == (8int, 'f', 'u', 'n'));
    assert(word_key("method"@) == (6int, 'm', 'e', 't'));
    assert(word_key("struct"@) == (6int, 's', 't', 'r'));
    assert(word_key("class"@) == (5int, 'c', 'l', 'a'));
    assert(word_key("enum"@) == (4int, 'e', 'n', 'u'));
    assert(word_key("trait"@) == (5int, 't', 'r', 'a'));
    assert(word_key("interface"@) == (9int, 'i', 'n', 't'));
    assert(word_key("module"@) == (6int, 'm', 'o', 'd'));
    assert(word_key("constant"@) == (8int, 'c', 'o', 'n'));
    assert(word_key("variable"@) == (8int, 'v', 'a', 'r'));
    assert(word_key("type_alias"@) == (10int, 't', 'y', 'p'));
    assert(word_key("file"@) == (4int, 'f', 'i', 'l'));
    assert(word_key("import"@) == (6int, 'i', 'm', 'p'));
    if let Some(s) = c.entity_type {
        let x = s@;
        assert(word_key(x) == word_key(x));
        assert(word_key(entity_type_text(t)) == word_key(entity_type_text(t)));
        if forall|u: EntityType| is_code_entity(u) ==> x != #[trigger] entity_type_text(u) {
            assert(x != entity_type_text(EntityType::Function));
            assert(x != entity_type_text(EntityType::Method));
            assert(x != entity_type_text(EntityType::Struct));
            assert(x != entity_type_text(EntityType::Class));
            assert(x != entity_type_text(EntityType::Enum));
            assert(x != entity_type_text(EntityType::Trait));
            assert(x != entity_type_text(EntityType::Interface));
            assert(x != entity_type_text(EntityType::Module));
            assert(x != entity_type_text(EntityType::Constant));
            assert(x != entity_type_text(EntityType::Variable));
            assert(x != entity_type_text(EntityType::TypeAlias));
        }
    }
}

fn is_code_type_exec(t: &str) -> (r: bool)
    ensures
        r == is_code_type(t@),
{
    str_eq(t, "function") || str_eq(t, "method") || str_eq(t, "struct") || str_eq(t, "class")
        || str_eq(t, "enum") || str_eq(t, "trait") || str_eq(t, "interface") || str_eq(t, "module")
        || str_eq(t, "constant") || str_eq(t, "variable") || str_eq(t, "type_alias")
}

/// The score of a candidate after the boost of code entities.
pub fn boosted_score(c: &Candidate) -> (r: u64)
    ensures
        r == boosted(*c),
{
    let boost: u64 = match &c.entity_type {
        Some(t) => if is_code_type_exec(t.as_str()) {
            CODE_BOOST as u64
        } else {
            0
        },
        None => 0,
    };
    c.score as u64 + boost
}

fn dedup_prefix(c: &Candidate) -> (r: String)
    ensures
        r@ == dedup_key(*c),
{
    let cs = to_chars(c.content.as_str());
    if cs.len() <= DEDUP_CHARS {
        let r = string_of(&cs, 0, cs.len());
        proof {
            assert(cs@.subrange(0, cs@.len() as int) =~= cs@);
        }
        r
    } else {
        let r = string_of(&cs, 0, DEDUP_CHARS);
        proof {
            assert(cs@.subrange(0, DEDUP_CHARS as int) =~= cs@.take(DEDUP_CHARS as int));
        }
        r
    }
}

/// The reranking of retrieved candidates, as indices into them.
pub fn rerank(cands: &Vec<Candidate>) -> (r: Vec<usize>)
    ensures
        is_reranking(cands@, r@),
{
    let n = cands.len();
    let ghost cs = cands@;
    let mut scores: Vec<u64> = Vec::new();
    let mut keys: Vec<String> = Vec::new();
    let mut done: Vec<bool> = Vec::new();
    let mut i: usize = 0;
    while i < n
        invariant
            n == cs.len(),
            cs == cands@,
            i <= n,
            scores@.len() == i,
            keys@.len() == i,
            done@.len() == i,
            forall|k: int| 0 <= k < i ==> scores@[k] == boosted(cs[k]),
            forall|k: int| 0 <= k < i ==> keys@[k]@ == dedup_key(cs[k]),
            forall|k: int| 0 <= k < i ==> !done@[k],
        decreases n - i,
    {
        scores.push(boosted_score(&cands[i]));
        keys.push(dedup_prefix(&cands[i]));
        done.push(false);
        i = i + 1;
    }
    proof {
        assert forall|k: int| 0 <= k < n implies (done@[k] <==> Set::<int>::empty().contains(k)) by {
            assert(!done@[k]);
        }
    }
    let mut sel: Vec<usize> = Vec::new();
    let ghost mut done_set: Set<int> = Set::empty();
    let mut t: usize = 0;
    proof {
        lemma_int_range(0, n as int);
    }
    while t < n && sel.len() < TOP_K
        invariant
            n == cs.len(),
            cs == cands@,
            scores@.len() == n,
            keys@.len() == n,
            done@.len() == n,
            forall|k: int| 0 <= k < n ==> scores@[k] == boosted(cs[k]),
            forall|k: int| 0 <= k < n ==> keys@[k]@ == dedup_key(cs[k]),
            forall|k: int| 0 <= k < n ==> (done@[k] <==> done_set.contains(k)),
            done_set.subset_of(set_int_range(0, n as int)),
            set_int_range(0, n as int).finite(),
            set_int_range(0, n as int).len() == n,
            done_set.finite(),
            done_set.len() == t,
            t <= n,
            forall|a: int, b: int|
                0 <= a < n && 0 <= b < n && done@[a] && !done@[b] ==> ranks_before(cs, a, b),
            sel@.len() <= TOP_K,
            forall|k: int| 0 <= k < sel@.len() ==> sel@[k] < n && done@[sel@[k] as int],
            forall|a: int, b: int|
                0 <= a < b < sel@.len() ==> ranks_before(cs, sel@[a] as int, sel@[b] as int),
            forall|a: int, b: int|
                0 <= a < b < sel@.len() ==> dedup_key(cs[sel@[a] as int]) != dedup_key(
                    cs[sel@[b] as int],
                ),
            forall|x: int|
                0 <= x < n && #[trigger] done@[x] && !sel@.contains(x as usize) ==> repeats_taken(
                    cs,
                    sel@,
                    x,
                ),
        decreases n - t,
    {
        proof {
            assert(exists|k: int| 0 <= k < n && !done@[k]) by {
                if forall|k: int| 0 <= k < n ==> done@[k] {
                    assert(set_int_range(0, n as int).subset_of(done_set));
                    lemma_len_subset(set_int_range(0, n as int), done_set);
                }
            }
        }
        let mut best: usize = n;
        let mut j: usize = 0;
        while j < n
            invariant
                n == cs.len(),
                scores@.len() == n,
                done@.len() == n,
                forall|k: int| 0 <= k < n ==> scores@[k] == boosted(cs[k]),
                j <= n,
                best == n || (best < j && !done@[best as int]),
                best == n ==> forall|k: int| 0 <= k < j ==> done@[k],
                best < n ==> forall|k: int|
                    0 <= k < j && !done@[k] && k != best ==> ranks_before(cs, best as int, k),
            decreases n - j,
        {
            if !done[j] {
                if best == n || scores[j] > scores[best] {
                    best = j;
                }
            }
            j = j + 1;
        }
        assert(best < n);
        let ghost old_done = done@;
        done.set(best, true);
        proof {
            done_set = done_set.insert(best as int);
            assert(!old_done[best as int]);
            assert forall|a: int, b: int|
                0 <= a < n && 0 <= b < n && done@[a] && !done@[b] implies ranks_before(
                cs,
                a,
                b,
            ) by {
                if a != best as int {
                    assert(old_done[a]);
                }
            }
        }
        let mut dup = false;
        let mut k: usize = 0;
        while k < sel.len()
            invariant
                n == cs.len(),
                keys@.len() == n,
                forall|q: int| 0 <= q < n ==> keys@[q]@ == dedup_key(cs[q]),
                forall|q: int| 0 <= q < sel@.len() ==> sel@[q] < n,
                best < n,
                k <= sel@.len(),
                dup <==> exists|m: int|
                    0 <= m < k && dedup_key(cs[sel@[m] as int]) == dedup_key(cs[best as int]),
            decreases sel@.len() - k,
        {
            let same = str_eq(keys[sel[k]].as_str(), keys[best].as_str());
            if same {
                dup = true;
            }
            proof {
                if same {
                    assert(0 <= k < k + 1 && dedup_key(cs[sel@[k as int] as int]) == dedup_key(
                        cs[best as int],
                    ));
                }
            }
            k = k + 1;
        }
        let ghost old_sel = sel@;
        if !dup {
            sel.push(best);
            proof {
                assert forall|x: int|
                    0 <= x < n && #[trigger] done@[x] && !sel@.contains(x as usize) implies repeats_taken(
                    cs,
                    sel@,
                    x,
                ) by {
                    assert(x != best as int) by {
                        assert(sel@[sel@.len() - 1] == best);
                    }
                    assert(!old_sel.contains(x as usize)) by {
                        if old_sel.contains(x as usize) {
                            let q = choose|q: int| 0 <= q < old_sel.len() && old_sel[q] == x as usize;
                            assert(sel@[q] == x as usize);
                        }
                    }
                    assert(repeats_taken(cs, old_sel, x));
                    let q = choose|q: int|
                        0 <= q < old_sel.len() && ranks_before(cs, old_sel[q] as int, x)
                            && #[trigger] dedup_key(cs[old_sel[q] as int]) == dedup_key(cs[x]);
                    assert(sel@[q] == old_sel[q]);
                    assert(dedup_key(cs[sel@[q] as int]) == dedup_key(cs[x]));
                }
            }
        } else {
            proof {
                let m = choose|m: int|
                    0 <= m < sel@.len() && dedup_key(cs[sel@[m] as int]) == dedup_key(
                        cs[best as int],
                    );
                assert(ranks_before(cs, sel@[m] as int, best as int));
                assert forall|x: int|
                    0 <= x < n && #[trigger] done@[x] && !sel@.contains(x as usize) implies repeats_taken(
                    cs,
                    sel@,
                    x,
                ) by {
                    if x == best as int {
                        assert(0 <= m < sel@.len() && ranks_before(cs, sel@[m] as int, x)
                            && dedup_key(cs[sel@[m] as int]) == dedup_key(cs[x]));
                    } else {
                        assert(old_done[x]);
                    }
                }
            }
        }
        t = t + 1;
    }
    proof {
        assert forall|x: int|
            0 <= x < cs.len() && !sel@.contains(x as usize) implies #[trigger] repeats_taken(cs, sel@, x) || (sel@.len() == TOP_K && ranks_before(
            cs,
            sel@[sel@.len() - 1] as int,
            x,
        )) by {
            if !done@[x] {
                if t == n {
                    lemma_len_subset(done_set, set_int_range(0, n as int));
                    vstd::set_lib::lemma_subset_equality(done_set, set_int_range(0, n as int));
                    assert(set_int_range(0, n as int).contains(x));
                    assert(false);
                }
                assert(sel@.len() == TOP_K);
                assert(done@[sel@[sel@.len() - 1] as int]);
            }
        }
    }
    sel
}

/// Two rerankings that agree before position `p`, where the second goes on,
/// cannot part there with the first ending at `p` or taking a candidate that
/// ranks before the one the second takes.
proof fn lemma_no_parting(cs: Seq<Candidate>, r1: Seq<usize>, r2: Seq<usize>, p: int)
    requires
        is_reranking(cs, r1),
        is_reranking(cs, r2),
        0 <= p < r2.len(),
        p <= r1.len(),
        forall|k: int| 0 <= k < p ==> r1[k] == r2[k],
    ensures
        p < r1.len() && !ranks_before(cs, r1[p] as int, r2[p] as int),
{
    if p == r1.len() {
        let b = r2[p] as int;
        if r1.contains(b as usize) {
            let q = choose|q: int| 0 <= q < r1.len() && r1[q] == b as usize;
            assert(r2[q] == r2[p]);
            assert(ranks_before(cs, r2[q] as int, r2[p] as int));
        }
        assert(repeats_taken(cs, r1, b) || (r1.len() == TOP_K && ranks_before(
            cs,
            r1[r1.len() - 1] as int,
            b,
        )));
        if repeats_taken(cs, r1, b) {
            let k = choose|k: int|
                0 <= k < r1.len() && ranks_before(cs, r1[k] as int, b) && #[trigger] dedup_key(
                    cs[r1[k] as int],
                ) == dedup_key(cs[b]);
            assert(r2[k] == r1[k]);
            assert(dedup_key(cs[r2[k] as int]) != dedup_key(cs[r2[p] as int]));
        }
    } else if ranks_before(cs, r1[p] as int, r2[p] as int) {
        let a = r1[p] as int;
        if r2.contains(a as usize) {
            let q = choose|q: int| 0 <= q < r2.len() && r2[q] == a as usize;
            if q < p {
                assert(r1[q] == r1[p]);
                assert(ranks_before(cs, r1[q] as int, r1[p] as int));
            } else if q > p {
                assert(ranks_before(cs, r2[p] as int, r2[q] as int));
            }
        }
        assert(repeats_taken(cs, r2, a) || (r2.len() == TOP_K && ranks_before(
            cs,
            r2[r2.len() - 1] as int,
            a,
        )));
        if repeats_taken(cs, r2, a) {
            let k = choose|k: int|
                0 <= k < r2.len() && ranks_before(cs, r2[k] as int, a) && #[trigger] dedup_key(
                    cs[r2[k] as int],
                ) == dedup_key(cs[a]);
            if k >= p {
                if k > p {
                    assert(ranks_before(cs, r2[p] as int, r2[k] as int));
                }
            } else {
                assert(r1[k] == r2[k]);
                assert(dedup_key(cs[r1[k] as int]) != dedup_key(cs[r1[p] as int]));
            }
        } else {
            let last = r2.len() - 1;
            if last > p {
                assert(ranks_before(cs, r2[p] as int, r2[last] as int));
            }
        }
    }
}

proof fn lemma_agree_from(cs: Seq<Candidate>, r1: Seq<usize>, r2: Seq<usize>, p: int)
    requires
        is_reranking(cs, r1),
        is_reranking(cs, r2),
        0 <= p <= r1.len(),
        p <= r2.len(),
        forall|k: int| 0 <= k < p ==> r1[k] == r2[k],
    ensures
        r1 == r2,
    decreases r1.len() - p,
{
    if p == r1.len() && p == r2.len() {
        assert(r1 =~= r2);
    } else if p == r1.len() {
        lemma_no_parting(cs, r1, r2, p);
    } else if p == r2.len() {
        lemma_no_parting(cs, r2, r1, p);
    } else if r1[p] == r2[p] {
        lemma_agree_from(cs, r1, r2, p + 1);
    } else if ranks_before(cs, r1[p] as int, r2[p] as int) {
        lemma_no_parting(cs, r1, r2, p);
    } else {
        lemma_no_parting(cs, r2, r1, p);
    }
}

/// The reranking of a list of candidates is unique: `is_reranking` fixes
/// the result completely.
pub proof fn lemma_reranking_unique(cs: Seq<Candidate>, r1: Seq<usize>, r2: Seq<usize>)
    requires
        is_reranking(cs, r1),
        is_reranking(cs, r2),
    ensures
        r1 == r2,
{
    lemma_agree_from(cs, r1, r2, 0);
}

} // verus!
