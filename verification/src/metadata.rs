//! The rules of the music library: matching tracks against a search,
//! tags, track identifiers, rankings and statistics.
//!
//! A track's metadata also holds its duration and energy (floating-point
//! values), its timestamps and its file paths; those stay with the
//! application, which hands the library the plain values below.

use vstd::prelude::*;
use vstd::relations::injective_on;
use vstd::set_lib::{lemma_int_range, lemma_len_subset, lemma_map_size, set_int_range};

use crate::mood::{Intensity, Mood};
use crate::text::{chars_of, contains_chars, contains_text, lowercase, occurs_at, same_chars, spec_lowercase};

verus! {

/// The parts of a track's metadata that a search reads, beside its
/// duration.
pub struct TrackInfo {
    pub mood: Mood,
    pub intensity: Intensity,
    pub style: String,
    pub tags: Vec<String>,
    pub use_cases: Vec<String>,
}

/// What a search asks for, beside a duration range; `None` asks nothing.
pub struct SearchTerms {
    pub mood: Option<Mood>,
    pub intensity: Option<Intensity>,
    pub style: Option<String>,
    pub tag: Option<String>,
    pub use_case: Option<String>,
}

/// Some text of `texts` contains `w`.
pub open spec fn any_contains(texts: Seq<String>, w: Seq<char>) -> bool {
    exists|k: int| 0 <= k < texts.len() && contains_text(#[trigger] texts[k]@, w)
}

/// Some text of `texts`, lowercased, contains the lowercased `w`.
pub open spec fn any_contains_lowercase(texts: Seq<String>, w: Seq<char>) -> bool {
    exists|k: int|
        0 <= k < texts.len() && contains_text(spec_lowercase(#[trigger] texts[k]@), spec_lowercase(w))
}

/// A track meets the search terms: the same mood and intensity where they
/// are asked for, a style that contains the asked style, a tag that
/// contains the asked tag, and a use case that contains the asked use case
/// when both are lowercased.
pub open spec fn spec_matches_terms(t: TrackInfo, q: SearchTerms) -> bool {
    &&& (q.mood matches Some(m) ==> t.mood == m)
    &&& (q.intensity matches Some(i) ==> t.intensity == i)
    &&& (q.style matches Some(s) ==> contains_text(t.style@, s@))
    &&& (q.tag matches Some(g) ==> any_contains(t.tags@, g@))
    &&& (q.use_case matches Some(u) ==> any_contains_lowercase(t.use_cases@, u@))
}

/// `w` occurs somewhere in `k`, as a run of consecutive characters.
pub open spec fn occurs_in(k: Seq<char>, w: Seq<char>) -> bool {
    exists|i: int| 0 <= i && i + w.len() <= k.len() && #[trigger] k.subrange(i, i + w.len()) == w
}

proof fn lemma_contains_text_occurs(k: Seq<char>, w: Seq<char>)
    ensures
        contains_text(k, w) <==> occurs_in(k, w),
{
    if contains_text(k, w) {
        let i = choose|i: int| occurs_at(k, i, w);
        assert forall|j: int| 0 <= j < w.len() implies k.subrange(i, i + w.len())[j] == w[j] by {
            assert(k[i + j] == w[j]);
        }
        assert(k.subrange(i, i + w.len()) =~= w);
    }
    if occurs_in(k, w) {
        let i = choose|i: int| 0 <= i && i + w.len() <= k.len() && #[trigger] k.subrange(i, i + w.len()) == w;
        assert forall|j: int| 0 <= j < w.len() implies #[trigger] k[i + j] == w[j] by {
            assert(k.subrange(i, i + w.len())[j] == k[i + j]);
        }
        assert(occurs_at(k, i, w));
    }
}

/// Every term of a search stands on its own. A track that fails a term that
/// is asked for does not match, whatever else is asked: another mood,
/// another intensity, a style that does not occur in the track's style, no
/// tag in which the asked tag occurs, or no use case in which the asked use
/// case occurs once both are lowercased. A track that meets every term
/// asked for matches, and a search that asks nothing matches every track.
pub proof fn lemma_search_terms(t: TrackInfo, q: SearchTerms)
    ensures
        q.mood is Some && t.mood != q.mood->0 ==> !spec_matches_terms(t, q),
        q.intensity is Some && t.intensity != q.intensity->0 ==> !spec_matches_terms(t, q),
        q.style is Some && !occurs_in(t.style@, q.style->0@) ==> !spec_matches_terms(t, q),
        q.tag is Some && (forall|k: int|
            0 <= k < t.tags@.len() ==> !occurs_in(#[trigger] t.tags@[k]@, q.tag->0@))
            ==> !spec_matches_terms(t, q),
        q.use_case is Some && (forall|k: int|
            0 <= k < t.use_cases@.len() ==> !occurs_in(
                spec_lowercase(#[trigger] t.use_cases@[k]@),
                spec_lowercase(q.use_case->0@),
            )) ==> !spec_matches_terms(t, q),
        (q.mood is None || t.mood == q.mood->0) && (q.intensity is None || t.intensity
            == q.intensity->0) && (q.style is None || occurs_in(t.style@, q.style->0@)) && (
        q.tag is None || exists|k: int|
            0 <= k < t.tags@.len() && occurs_in(#[trigger] t.tags@[k]@, q.tag->0@)) && (
        q.use_case is None || exists|k: int|
            0 <= k < t.use_cases@.len() && occurs_in(
                spec_lowercase(#[trigger] t.use_cases@[k]@),
                spec_lowercase(q.use_case->0@),
            )) ==> spec_matches_terms(t, q),
        q.mood is None && q.intensity is None && q.style is None && q.tag is None
            && q.use_case is None ==> spec_matches_terms(t, q),
{
    if q.style is Some {
        lemma_contains_text_occurs(t.style@, q.style->0@);
    }
    if q.tag is Some {
        let g = q.tag->0@;
        assert forall|k: int| 0 <= k < t.tags@.len() implies (contains_text(
            #[trigger] t.tags@[k]@,
            g,
        ) <==> occurs_in(t.tags@[k]@, g)) by {
            lemma_contains_text_occurs(t.tags@[k]@, g);
        }
    }
    if q.use_case is Some {
        let u = spec_lowercase(q.use_case->0@);
        assert forall|k: int| 0 <= k < t.use_cases@.len() implies (contains_text(
            spec_lowercase(#[trigger] t.use_cases@[k]@),
            u,
        ) <==> occurs_in(spec_lowercase(t.use_cases@[k]@), u)) by {
            lemma_contains_text_occurs(spec_lowercase(t.use_cases@[k]@), u);
        }
    }
}

/// Whether some text of `texts` contains `w`.
fn any_text_contains(texts: &Vec<String>, w: &str) -> (b: bool)
    ensures
        b == any_contains(texts@, w@),
{
    let wc = chars_of(w);
    let mut k: usize = 0;
    while k < texts.len()
        invariant
            k <= texts@.len(),
            wc@ == w@,
            forall|m: int| 0 <= m < k ==> !contains_text(#[trigger] texts@[m]@, w@),
        decreases texts.len() - k,
    {
        if contains_chars(&chars_of(texts[k].as_str()), &wc) {
            return true;
        }
        k = k + 1;
    }
    false
}

/// Whether some text of `texts`, lowercased, contains the lowercased `w`.
fn any_text_contains_lowercase(texts: &Vec<String>, w: &str) -> (b: bool)
    ensures
        b == any_contains_lowercase(texts@, w@),
{
    let lw = lowercase(w);
    let wc = chars_of(lw.as_str());
    let mut k: usize = 0;
    while k < texts.len()
        invariant
            k <= texts@.len(),
            wc@ == spec_lowercase(w@),
            forall|m: int|
                0 <= m < k ==> !contains_text(spec_lowercase(#[trigger] texts@[m]@), spec_lowercase(w@)),
        decreases texts.len() - k,
    {
        let lt = lowercase(texts[k].as_str());
        if contains_chars(&chars_of(lt.as_str()), &wc) {
            return true;
        }
        k = k + 1;
    }
    false
}

/// Whether a track meets the search terms.
pub fn matches_terms(t: &TrackInfo, q: &SearchTerms) -> (b: bool)
    ensures
        b == spec_matches_terms(*t, *q),
{
    if let Some(m) = q.mood {
        if t.mood != m {
            return false;
        }
    }
    if let Some(i) = q.intensity {
        if t.intensity != i {
            return false;
        }
    }
    if let Some(s) = &q.style {
        if !contains_chars(&chars_of(t.style.as_str()), &chars_of(s.as_str())) {
            return false;
        }
    }
    if let Some(g) = &q.tag {
        if !any_text_contains(&t.tags, g.as_str()) {
            return false;
        }
    }
    if let Some(u) = &q.use_case {
        if !any_text_contains_lowercase(&t.use_cases, u.as_str()) {
            return false;
        }
    }
    true
}

/// The first position in `texts` that holds `text`, or none when no entry
/// holds it. Used with track identifiers and with tags.
pub fn position_of(texts: &Vec<String>, text: &str) -> (r: Option<usize>)
    ensures
        r matches Some(k) ==> k < texts@.len() && texts@[k as int]@ == text@ && forall|j: int|
            0 <= j < k ==> #[trigger] texts@[j]@ != text@,
        r is None ==> forall|j: int| 0 <= j < texts@.len() ==> #[trigger] texts@[j]@ != text@,
{
    let target = chars_of(text);
    let mut k: usize = 0;
    while k < texts.len()
        invariant
            k <= texts@.len(),
            target@ == text@,
            forall|j: int| 0 <= j < k ==> #[trigger] texts@[j]@ != text@,
        decreases texts.len() - k,
    {
        if same_chars(&chars_of(texts[k].as_str()), &target) {
            return Some(k);
        }
        k = k + 1;
    }
    None
}

/// Add a tag unless the list already holds the same text.
pub fn add_tag(tags: &mut Vec<String>, tag: String)
    ensures
        (exists|k: int| 0 <= k < old(tags)@.len() && #[trigger] old(tags)@[k]@ == tag@)
            ==> final(tags)@ == old(tags)@,
        !(exists|k: int| 0 <= k < old(tags)@.len() && #[trigger] old(tags)@[k]@ == tag@)
            ==> final(tags)@ == old(tags)@.push(tag),
{
    match position_of(tags, tag.as_str()) {
        Some(k) => {
            assert(old(tags)@[k as int]@ == tag@);
        },
        None => {
            tags.push(tag);
        },
    }
}

/// The sum of the usage counts.
pub open spec fn spec_total(counts: Seq<u32>) -> nat
    decreases counts.len(),
{
    if counts.len() == 0 {
        0
    } else {
        spec_total(counts.drop_last()) + counts.last() as nat
    }
}

proof fn lemma_total_prefix(counts: Seq<u32>, i: int)
    requires
        0 <= i <= counts.len(),
    ensures
        spec_total(counts.subrange(0, i)) <= spec_total(counts),
    decreases counts.len(),
{
    if i < counts.len() {
        lemma_total_prefix(counts.drop_last(), i);
        assert(counts.drop_last().subrange(0, i) =~= counts.subrange(0, i));
    } else {
        assert(counts.subrange(0, i) =~= counts);
    }
}

/// The total number of uses over the library. Summing past `u32::MAX`
/// overflows, which `requires` leaves out.
pub fn total_usage(counts: &Vec<u32>) -> (r: u32)
    requires
        spec_total(counts@) <= u32::MAX,
    ensures
        r == spec_total(counts@),
{
    let mut sum: u32 = 0;
    let mut i: usize = 0;
    while i < counts.len()
        invariant
            i <= counts@.len(),
            spec_total(counts@) <= u32::MAX,
            sum == spec_total(counts@.subrange(0, i as int)),
        decreases counts.len() - i,
    {
        proof {
            lemma_total_prefix(counts@, i + 1);
            assert(counts@.subrange(0, i + 1).drop_last() =~= counts@.subrange(0, i as int));
        }
        sum = sum + counts[i];
        i = i + 1;
    }
    assert(counts@.subrange(0, i as int) =~= counts@);
    sum
}

/// Every mood, in order of name.
pub open spec fn spec_moods_by_name() -> Seq<Mood> {
    seq![
        Mood::Ambient,
        Mood::Calm,
        Mood::Corporate,
        Mood::Dark,
        Mood::Dreamy,
        Mood::Epic,
        Mood::Fear,
        Mood::Happy,
        Mood::Inspirational,
        Mood::Intense,
        Mood::Melancholic,
        Mood::Mysterious,
        Mood::Peaceful,
        Mood::Playful,
        Mood::Romantic,
        Mood::Sad,
        Mood::Suspense,
        Mood::Thriller,
        Mood::Uplifting,
    ]
}

/// A mood's place in the order of names.
spec fn name_rank(m: Mood) -> int {
    match m {
        Mood::Ambient => 0,
        Mood::Calm => 1,
        Mood::Corporate => 2,
        Mood::Dark => 3,
        Mood::Dreamy => 4,
        Mood::Epic => 5,
        Mood::Fear => 6,
        Mood::Happy => 7,
        Mood::Inspirational => 8,
        Mood::Intense => 9,
        Mood::Melancholic => 10,
        Mood::Mysterious => 11,
        Mood::Peaceful => 12,
        Mood::Playful => 13,
        Mood::Romantic => 14,
        Mood::Sad => 15,
        Mood::Suspense => 16,
        Mood::Thriller => 17,
        Mood::Uplifting => 18,
    }
}

proof fn lemma_name_rank(m: Mood)
    ensures
        0 <= name_rank(m) < spec_moods_by_name().len(),
        spec_moods_by_name()[name_rank(m)] == m,
        forall|i: int| 0 <= i < spec_moods_by_name().len() && spec_moods_by_name()[i] == m ==> i == name_rank(m),
{
}

/// Every mood, in order of name.
pub fn moods_by_name() -> (r: Vec<Mood>)
    ensures
        r@ == spec_moods_by_name(),
{
    let r = vec![
        Mood::Ambient,
        Mood::Calm,
        Mood::Corporate,
        Mood::Dark,
        Mood::Dreamy,
        Mood::Epic,
        Mood::Fear,
        Mood::Happy,
        Mood::Inspirational,
        Mood::Intense,
        Mood::Melancholic,
        Mood::Mysterious,
        Mood::Peaceful,
        Mood::Playful,
        Mood::Romantic,
        Mood::Sad,
        Mood::Suspense,
        Mood::Thriller,
        Mood::Uplifting,
    ];
    assert(r@ =~= spec_moods_by_name());
    r
}

/// The moods of `order` that occur in `moods`, in the order of `order`.
pub open spec fn spec_present(order: Seq<Mood>, moods: Seq<Mood>) -> Seq<Mood>
    decreases order.len(),
{
    if order.len() == 0 {
        seq![]
    } else if moods.contains(order.last()) {
        spec_present(order.drop_last(), moods).push(order.last())
    } else {
        spec_present(order.drop_last(), moods)
    }
}

proof fn lemma_present(order: Seq<Mood>, moods: Seq<Mood>)
    requires
        order.no_duplicates(),
    ensures
        spec_present(order, moods).no_duplicates(),
        forall|m: Mood| #[trigger] spec_present(order, moods).contains(m) <==> (order.contains(m) && moods.contains(m)),
    decreases order.len(),
{
    let r = spec_present(order, moods);
    if order.len() > 0 {
        let d = order.drop_last();
        assert(d.no_duplicates());
        lemma_present(d, moods);
        let rd = spec_present(d, moods);
        assert(order =~= d.push(order.last()));
        assert(!d.contains(order.last()));
        assert forall|m: Mood| #[trigger] r.contains(m) <==> (order.contains(m) && moods.contains(m)) by {
            if order.contains(m) && moods.contains(m) {
                let i = choose|i: int| 0 <= i < order.len() && order[i] == m;
                if i < d.len() {
                    assert(d[i] == m);
                    assert(rd.contains(m));
                    let j = choose|j: int| 0 <= j < rd.len() && rd[j] == m;
                    assert(r[j] == m);
                } else {
                    assert(r[r.len() - 1] == m);
                }
            }
            if r.contains(m) {
                let j = choose|j: int| 0 <= j < r.len() && r[j] == m;
                if j < rd.len() {
                    assert(rd[j] == m);
                    assert(rd.contains(m));
                    let i = choose|i: int| 0 <= i < d.len() && d[i] == m;
                    assert(order[i] == m);
                } else {
                    assert(m == order.last());
                    assert(order[order.len() - 1] == m);
                }
            }
        }
        if moods.contains(order.last()) {
            assert forall|i: int, j: int| 0 <= i < j < r.len() implies r[i] != r[j] by {
                if j == r.len() - 1 {
                    assert(rd[i] == r[i]);
                    assert(rd.contains(r[i]));
                }
            }
        }
    }
}

/// The moods that occur in a library, each once, in order of name.
pub fn library_moods(moods: &Vec<Mood>) -> (r: Vec<Mood>)
    ensures
        r@ == spec_present(spec_moods_by_name(), moods@),
        r@.no_duplicates(),
        forall|m: Mood| #[trigger] r@.contains(m) <==> moods@.contains(m),
{
    let order = moods_by_name();
    let mut r: Vec<Mood> = Vec::new();
    let mut i: usize = 0;
    while i < order.len()
        invariant
            order@ == spec_moods_by_name(),
            i <= order@.len(),
            r@ == spec_present(order@.subrange(0, i as int), moods@),
        decreases order.len() - i,
    {
        let m = order[i];
        let mut found = false;
        let mut k: usize = 0;
        while k < moods.len()
            invariant
                k <= moods@.len(),
                found == (exists|j: int| 0 <= j < k && moods@[j] == m),
            decreases moods.len() - k,
        {
            if moods[k] == m {
                found = true;
            }
            k = k + 1;
        }
        proof {
            let pre = order@.subrange(0, i + 1);
            assert(pre.drop_last() =~= order@.subrange(0, i as int));
            assert(pre.last() == m);
            if found {
                let j = choose|j: int| 0 <= j < k && moods@[j] == m;
                assert(moods@.contains(m));
            }
        }
        if found {
            r.push(m);
        }
        i = i + 1;
    }
    proof {
        assert(order@.subrange(0, i as int) =~= order@);
        assert(spec_moods_by_name().no_duplicates()) by {
            assert forall|i: int, j: int| 0 <= i < j < spec_moods_by_name().len() implies spec_moods_by_name()[i]
                != spec_moods_by_name()[j] by {
                lemma_name_rank(spec_moods_by_name()[i]);
            }
        }
        lemma_present(spec_moods_by_name(), moods@);
        assert forall|m: Mood| #[trigger] r@.contains(m) <==> moods@.contains(m) by {
            lemma_name_rank(m);
            assert(spec_moods_by_name().contains(m));
        }
    }
    r
}

/// Entry `a` ranks before entry `b`: a larger key, or an equal key and an
/// earlier position.
pub open spec fn ranks_before(keys: Seq<u128>, a: int, b: int) -> bool {
    keys[a] > keys[b] || (keys[a] == keys[b] && a < b)
}

/// `order` lists distinct positions of `keys`, in ranking order.
pub open spec fn ranked(keys: Seq<u128>, order: Seq<usize>) -> bool {
    &&& forall|p: int| 0 <= p < order.len() ==> #[trigger] order[p] < keys.len()
    &&& forall|p: int, q: int|
        0 <= p < q < order.len() ==> ranks_before(keys, #[trigger] order[p] as int, #[trigger] order[q] as int)
}

/// The positions of the `limit` highest keys (all of them when there are
/// fewer), highest first; equal keys keep their order, as a stable sort
/// from highest to lowest does. Every position left out ranks after every
/// position listed.
pub fn top_by_key(keys: &Vec<u128>, limit: usize) -> (r: Vec<usize>)
    ensures
        r@.len() == if limit < keys@.len() { limit as int } else { keys@.len() as int },
        ranked(keys@, r@),
        forall|k: usize, p: int|
            #![trigger r@.contains(k), r@[p]]
            k < keys@.len() && !r@.contains(k) && 0 <= p < r@.len() ==> ranks_before(
                keys@,
                r@[p] as int,
                k as int,
            ),
{
    let mut order: Vec<usize> = Vec::new();
    let mut i: usize = 0;
    while i < keys.len()
        invariant
            i <= keys@.len(),
            order@.len() == i,
            forall|p: int| 0 <= p < order@.len() ==> #[trigger] order@[p] < i,
            ranked(keys@, order@),
            forall|k: usize| k < i ==> #[trigger] order@.contains(k),
        decreases keys.len() - i,
    {
        let key = keys[i];
        let mut j: usize = order.len();
        while j > 0 && keys[order[j - 1]] < key
            invariant
                j <= order@.len(),
                i < keys@.len(),
                key == keys@[i as int],
                forall|p: int| 0 <= p < order@.len() ==> #[trigger] order@[p] < i,
                forall|p: int| j <= p < order@.len() ==> keys@[#[trigger] order@[p] as int] < key,
            decreases j,
        {
            j = j - 1;
        }
        let ghost old_order = order@;
        order.insert(j, i);
        proof {
            assert(order@ =~= old_order.insert(j as int, i));
            assert forall|p: int, q: int| 0 <= p < q < order@.len() implies ranks_before(
                keys@,
                #[trigger] order@[p] as int,
                #[trigger] order@[q] as int,
            ) by {
                if q < j {
                    assert(order@[p] == old_order[p] && order@[q] == old_order[q]);
                } else if q == j {
                    assert(order@[p] == old_order[p]);
                    assert(keys@[old_order[j - 1] as int] >= key);
                    if p < j - 1 {
                        assert(ranks_before(keys@, old_order[p] as int, old_order[j - 1] as int));
                    }
                } else if p == j {
                    assert(order@[q] == old_order[q - 1]);
                } else if p < j {
                    assert(order@[p] == old_order[p] && order@[q] == old_order[q - 1]);
                } else {
                    assert(order@[p] == old_order[p - 1] && order@[q] == old_order[q - 1]);
                }
            }
            assert forall|k: usize| k < i + 1 implies #[trigger] order@.contains(k) by {
                if k == i {
                    assert(order@[j as int] == i);
                } else {
                    assert(old_order.contains(k));
                    let p = choose|p: int| 0 <= p < old_order.len() && old_order[p] == k;
                    if p < j {
                        assert(order@[p] == k);
                    } else {
                        assert(order@[p + 1] == k);
                    }
                }
            }
        }
        i = i + 1;
    }
    let n: usize = if limit < order.len() { limit } else { order.len() };
    let mut r: Vec<usize> = Vec::new();
    let mut p: usize = 0;
    while p < n
        invariant
            n <= order@.len(),
            p <= n,
            r@ == order@.subrange(0, p as int),
        decreases n - p,
    {
        r.push(order[p]);
        p = p + 1;
    }
    proof {
        assert forall|k: usize, q: int|
            k < keys@.len() && !r@.contains(k) && 0 <= q < r@.len() implies ranks_before(
                keys@,
                r@[q] as int,
                k as int,
            ) by {
            assert(order@.contains(k));
            let t = choose|t: int| 0 <= t < order@.len() && order@[t] == k;
            if t < n {
                assert(r@[t] == k);
            }
            assert(r@[q] == order@[q]);
        }
    }
    r
}

/// The decimal digit `d` as a character.
pub open spec fn digit_char(d: nat) -> char {
    if d == 0 {
        '0'
    } else if d == 1 {
        '1'
    } else if d == 2 {
        '2'
    } else if d == 3 {
        '3'
    } else if d == 4 {
        '4'
    } else if d == 5 {
        '5'
    } else if d == 6 {
        '6'
    } else if d == 7 {
        '7'
    } else if d == 8 {
        '8'
    } else {
        '9'
    }
}

/// The decimal numeral of `n`, without leading zeros.
pub open spec fn spec_decimal(n: nat) -> Seq<char>
    decreases n,
{
    if n < 10 {
        seq![digit_char(n)]
    } else {
        spec_decimal(n / 10).push(digit_char(n % 10))
    }
}

proof fn lemma_decimal_len(n: nat)
    ensures
        spec_decimal(n).len() >= 1,
{
}

/// Different numbers have different numerals.
pub proof fn lemma_decimal_injective(a: nat, b: nat)
    requires
        spec_decimal(a) == spec_decimal(b),
    ensures
        a == b,
    decreases a,
{
    if a < 10 && b < 10 {
        assert(spec_decimal(a)[0] == digit_char(a));
    } else if a < 10 {
        lemma_decimal_len((b / 10) as nat);
        assert(spec_decimal(b).len() >= 2);
    } else if b < 10 {
        lemma_decimal_len((a / 10) as nat);
        assert(spec_decimal(a).len() >= 2);
    } else {
        let da = spec_decimal(a);
        let db = spec_decimal(b);
        assert(da.last() == db.last());
        assert(da.drop_last() =~= spec_decimal(a / 10));
        assert(db.drop_last() =~= spec_decimal(b / 10));
        lemma_decimal_injective(a / 10, b / 10);
        assert(a == 10 * (a / 10) + a % 10);
        assert(b == 10 * (b / 10) + b % 10);
    }
}

/// The numeral of a digit.
fn digit_str(d: u128) -> (s: &'static str)
    requires
        d < 10,
    ensures
        s@ == seq![digit_char(d as nat)],
{
    if d == 0 {
        proof {
            reveal_strlit("0");
        }
        "0"
    } else if d == 1 {
        proof {
            reveal_strlit("1");
        }
        "1"
    } else if d == 2 {
        proof {
            reveal_strlit("2");
        }
        "2"
    } else if d == 3 {
        proof {
            reveal_strlit("3");
        }
        "3"
    } else if d == 4 {
        proof {
            reveal_strlit("4");
        }
        "4"
    } else if d == 5 {
        proof {
            reveal_strlit("5");
        }
        "5"
    } else if d == 6 {
        proof {
            reveal_strlit("6");
        }
        "6"
    } else if d == 7 {
        proof {
            reveal_strlit("7");
        }
        "7"
    } else if d == 8 {
        proof {
            reveal_strlit("8");
        }
        "8"
    } else {
        proof {
            reveal_strlit("9");
        }
        "9"
    }
}

/// Append the decimal numeral of `n`.
fn push_decimal(s: &mut String, n: u128)
    ensures
        final(s)@ == old(s)@ + spec_decimal(n as nat),
    decreases n,
{
    if n >= 10 {
        push_decimal(s, n / 10);
    }
    let d = digit_str(n % 10);
    s.append(d);
    assert(final(s)@ =~= old(s)@ + spec_decimal(n as nat));
}

/// `base`, an underscore and the numeral of `k`.
pub open spec fn spec_numbered(base: Seq<char>, k: nat) -> Seq<char> {
    base + seq!['_'] + spec_decimal(k)
}

/// Some track has the identifier `id`.
pub open spec fn id_taken(ids: Seq<String>, id: Seq<char>) -> bool {
    exists|j: int| 0 <= j < ids.len() && #[trigger] ids[j]@ == id
}

proof fn lemma_numbered_injective(base: Seq<char>, a: nat, b: nat)
    requires
        spec_numbered(base, a) == spec_numbered(base, b),
    ensures
        a == b,
{
    let na = spec_numbered(base, a);
    let nb = spec_numbered(base, b);
    assert(na.subrange(base.len() + 1int, na.len() as int) =~= spec_decimal(a));
    assert(nb.subrange(base.len() + 1int, nb.len() as int) =~= spec_decimal(b));
    lemma_decimal_injective(a, b);
}

/// When the numbered identifiers 1 to `c` are all taken, there are at
/// least `c` tracks.
proof fn lemma_taken_bound(ids: Seq<String>, base: Seq<char>, c: nat)
    requires
        forall|j: nat| 1 <= j <= c ==> id_taken(ids, #[trigger] spec_numbered(base, j)),
    ensures
        c <= ids.len(),
{
    let dom = set_int_range(1, c + 1int);
    let h = |j: int|
        choose|x: int| 0 <= x < ids.len() && #[trigger] ids[x]@ == spec_numbered(base, j as nat);
    lemma_int_range(1, c + 1int);
    lemma_int_range(0, ids.len() as int);
    assert forall|j: int| #[trigger] dom.contains(j) implies 0 <= h(j) < ids.len() && ids[h(j)]@
        == spec_numbered(base, j as nat) by {
        assert(id_taken(ids, spec_numbered(base, j as nat)));
    }
    assert(injective_on(h, dom)) by {
        assert forall|a: int, b: int| dom.contains(a) && dom.contains(b) && #[trigger] h(a) == #[trigger] h(b)
            implies a == b by {
            lemma_numbered_injective(base, a as nat, b as nat);
        }
    }
    let img = dom.map(h);
    lemma_map_size(dom, img, h);
    assert(img.subset_of(set_int_range(0, ids.len() as int))) by {
        assert forall|x: int| #[trigger] img.contains(x) implies set_int_range(0, ids.len() as int).contains(x) by {
            let j = choose|j: int| dom.contains(j) && h(j) == x;
        }
    }
    lemma_len_subset(img, set_int_range(0, ids.len() as int));
}

/// An identifier that no track has: `base` itself when it is free, else
/// `base`, an underscore and the least number from 1 up that makes it free.
pub fn unique_id(ids: &Vec<String>, base: &str) -> (r: String)
    ensures
        !id_taken(ids@, r@),
        !id_taken(ids@, base@) ==> r@ == base@,
        id_taken(ids@, base@) ==> exists|k: nat|
            k >= 1 && r@ == spec_numbered(base@, k) && forall|j: nat|
                1 <= j < k ==> id_taken(ids@, #[trigger] spec_numbered(base@, j)),
{
    if position_of(ids, base).is_none() {
        return base.to_owned();
    }
    let n: usize = ids.len();
    let mut counter: u128 = 1;
    loop
        invariant
            n == ids@.len(),
            id_taken(ids@, base@),
            1 <= counter <= ids@.len() + 1,
            forall|j: nat| 1 <= j < counter ==> id_taken(ids@, #[trigger] spec_numbered(base@, j)),
        decreases ids@.len() + 1 - counter,
    {
        let mut candidate = base.to_owned();
        candidate.append("_");
        push_decimal(&mut candidate, counter);
        proof {
            reveal_strlit("_");
            assert(candidate@ =~= spec_numbered(base@, counter as nat));
        }
        if position_of(ids, candidate.as_str()).is_none() {
            return candidate;
        }
        proof {
            assert(id_taken(ids@, spec_numbered(base@, counter as nat)));
            lemma_taken_bound(ids@, base@, counter as nat);
        }
        counter = counter + 1;
    }
}

} // verus!
