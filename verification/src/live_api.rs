//! The live-data client's core: the endpoint set resolved from a status
//! response, and the ordering guarantee on returned snapshots.
//!
//! A client bootstraps itself by fetching the well-known status endpoint,
//! whose body lists several interchangeable mirror URLs per feed type.
//! [`Vatsim::from_status_data`] picks exactly one URL per feed type at
//! random, or reports which mirror list was empty. Snapshots are handed to
//! callers with pilots and controllers sorted ascending by callsign;
//! [`sort_by_callsign`] performs that sort and is proved to return a
//! sorted, stable permutation of its input.

use vstd::multiset::Multiset;
use vstd::prelude::*;
use vstd::seq_lib::*;
use vstd::string::*;

use crate::errors::VatsimUtilError;
use crate::models::{Controller, Pilot, StatusData, V3ResponseData};
use crate::text::{
    lemma_lex_le_antisym, lemma_lex_le_refl, lemma_lex_le_total, lemma_lex_le_trans, lex_le,
    str_le,
};

verus! {

/// Initial API requests are made to this status endpoint.
pub fn status_url() -> (r: String)
    ensures
        r@ == "https://status.vatsim.net/status.json"@,
{
    String::from_str("https://status.vatsim.net/status.json")
}

/// A record that operates under a callsign, by which snapshots are sorted.
pub trait Callsigned {
    /// The callsign as a character sequence.
    spec fn spec_callsign(&self) -> Seq<char>;

    /// The callsign itself.
    fn callsign_str(&self) -> (r: &str)
        ensures
            r@ == self.spec_callsign(),
    ;
}

impl Callsigned for Pilot {
    open spec fn spec_callsign(&self) -> Seq<char> {
        self.callsign@
    }

    fn callsign_str(&self) -> (r: &str) {
        self.callsign.as_str()
    }
}

impl Callsigned for Controller {
    open spec fn spec_callsign(&self) -> Seq<char> {
        self.callsign@
    }

    fn callsign_str(&self) -> (r: &str) {
        self.callsign.as_str()
    }
}

/// The records appear in non-decreasing callsign order.
pub open spec fn sorted_by_callsign<T: Callsigned>(s: Seq<T>) -> bool {
    forall|i: int, j: int|
        0 <= i < j < s.len() ==> #[trigger] lex_le(s[i].spec_callsign(), s[j].spec_callsign())
}

/// The records of `s` operating under callsign `c`, in their order in `s`.
pub open spec fn with_callsign<T: Callsigned>(s: Seq<T>, c: Seq<char>) -> Seq<T> {
    s.filter(|t: T| t.spec_callsign() == c)
}

/// [`with_callsign`] distributes over concatenation.
proof fn lemma_with_callsign_add<T: Callsigned>(a: Seq<T>, b: Seq<T>, c: Seq<char>)
    ensures
        with_callsign(a + b, c) == with_callsign(a, c) + with_callsign(b, c),
    decreases b.len(),
{
    reveal(Seq::filter);
    if b.len() == 0 {
        assert(a + b =~= a);
        assert(with_callsign(b, c) =~= Seq::<T>::empty());
        assert(with_callsign(a, c) + Seq::<T>::empty() =~= with_callsign(a, c));
    } else {
        lemma_with_callsign_add(a, b.drop_last(), c);
        assert((a + b).drop_last() =~= a + b.drop_last());
        assert((a + b).last() == b.last());
        assert(with_callsign(a + b, c) =~= with_callsign(a, c) + with_callsign(b, c));
    }
}

/// A sequence with no record under callsign `c` filters to nothing.
proof fn lemma_with_callsign_none<T: Callsigned>(s: Seq<T>, c: Seq<char>)
    requires
        forall|k: int| 0 <= k < s.len() ==> #[trigger] s[k].spec_callsign() != c,
    ensures
        with_callsign(s, c) == Seq::<T>::empty(),
    decreases s.len(),
{
    reveal(Seq::filter);
    if s.len() == 0 {
        assert(s =~= Seq::<T>::empty());
    } else {
        assert(s.last() == s[s.len() - 1]);
        assert(forall|k: int|
            0 <= k < s.drop_last().len() ==> #[trigger] s.drop_last()[k].spec_callsign() != c);
        lemma_with_callsign_none(s.drop_last(), c);
    }
}

/// No two records share a callsign, as holds of the pilots and of the
/// controllers within one snapshot.
pub open spec fn distinct_callsigns<T: Callsigned>(s: Seq<T>) -> bool {
    forall|i: int, j: int|
        0 <= i < j < s.len() ==> #[trigger] s[i].spec_callsign() != #[trigger] s[j].spec_callsign()
}

/// Sorted arrangements of the same records are pointwise equal when no
/// two records share a callsign: the sorted order of a snapshot is
/// determined by its contents alone, not by the order the upstream feed
/// happened to use, so fetching the same payload again gives the same
/// sequence back.
pub proof fn lemma_sorted_unique<T: Callsigned>(a: Seq<T>, b: Seq<T>)
    requires
        sorted_by_callsign(a),
        sorted_by_callsign(b),
        distinct_callsigns(a),
        distinct_callsigns(b),
        a.to_multiset() == b.to_multiset(),
    ensures
        a == b,
    decreases a.len(),
{
    broadcast use vstd::seq_lib::group_to_multiset_ensures;

    a.to_multiset_ensures();
    b.to_multiset_ensures();
    if a.len() == 0 {
        assert(a.to_multiset() =~= Multiset::<T>::empty());
        assert(b.len() == 0);
        assert(a =~= b);
    } else {
        assert(b.len() == a.len());
        // Each sequence's first record occurs in the other, which is
        // sorted, so the two first records carry equal callsigns; with
        // distinct callsigns they are the same record.
        assert(a.contains(a[0]) && b.contains(b[0]));
        assert(b.to_multiset().count(a[0]) > 0);
        assert(b.contains(a[0]));
        assert(a.to_multiset().count(b[0]) > 0);
        assert(a.contains(b[0]));
        let j = choose|j: int| 0 <= j < b.len() && b[j] == a[0];
        let k = choose|k: int| 0 <= k < a.len() && a[k] == b[0];
        if j != 0 && k != 0 {
            assert(lex_le(b[0].spec_callsign(), b[j].spec_callsign()));
            assert(lex_le(a[0].spec_callsign(), a[k].spec_callsign()));
            lemma_lex_le_antisym(a[0].spec_callsign(), b[0].spec_callsign());
            assert(b[0].spec_callsign() != b[j].spec_callsign());
            assert(false);
        }
        assert(a[0] == b[0]);
        // The tails hold the same records and inherit order and
        // distinctness, so they are equal by induction.
        assert(a.drop_first() =~= a.remove(0));
        assert(b.drop_first() =~= b.remove(0));
        broadcast use vstd::seq_lib::to_multiset_remove;

        assert(a.drop_first().to_multiset() == a.to_multiset().remove(a[0]));
        assert(b.drop_first().to_multiset() == b.to_multiset().remove(b[0]));
        assert(sorted_by_callsign(a.drop_first())) by {
            assert(forall|i: int|
                0 <= i < a.len() - 1 ==> a.drop_first()[i] == a[i + 1]);
        }
        assert(sorted_by_callsign(b.drop_first())) by {
            assert(forall|i: int|
                0 <= i < b.len() - 1 ==> b.drop_first()[i] == b[i + 1]);
        }
        assert(distinct_callsigns(a.drop_first())) by {
            assert(forall|i: int|
                0 <= i < a.len() - 1 ==> a.drop_first()[i] == a[i + 1]);
        }
        assert(distinct_callsigns(b.drop_first())) by {
            assert(forall|i: int|
                0 <= i < b.len() - 1 ==> b.drop_first()[i] == b[i + 1]);
        }
        lemma_sorted_unique(a.drop_first(), b.drop_first());
        assert(a =~= b) by {
            assert(forall|i: int|
                1 <= i < a.len() ==> a[i] == a.drop_first()[i - 1] && b[i] == b.drop_first()[i
                    - 1]);
        }
    }
}

/// Sort records ascending by callsign. The result is a sorted permutation
/// of the input, and the sort is stable: under any one callsign the
/// records keep the relative order they arrived in.
pub fn sort_by_callsign<T: Callsigned>(v: Vec<T>) -> (r: Vec<T>)
    ensures
        sorted_by_callsign(r@),
        r@.to_multiset() == v@.to_multiset(),
        forall|c: Seq<char>| #[trigger] with_callsign(r@, c) == with_callsign(v@, c),
{
    let ghost orig = v@;
    let mut v = v;
    if v.len() <= 1 {
        return v;
    }
    let mut i: usize = 1;
    while i < v.len()
        invariant
            1 <= i <= v@.len(),
            v@.len() == orig.len(),
            v@.to_multiset() == orig.to_multiset(),
            sorted_by_callsign(v@.take(i as int)),
            forall|c: Seq<char>| #[trigger] with_callsign(v@, c) == with_callsign(orig, c),
        decreases v@.len() - i,
    {
        let ghost pre = v@;
        // Find the first position in the sorted prefix whose callsign
        // sorts strictly after this record's.
        let mut p: usize = 0;
        while p < i
            invariant
                p <= i,
                i < v@.len(),
                v@ == pre,
                forall|k: int|
                    0 <= k < p ==> lex_le(
                        #[trigger] v@[k].spec_callsign(),
                        v@[i as int].spec_callsign(),
                    ),
            ensures
                p <= i,
                v@ == pre,
                forall|k: int|
                    0 <= k < p ==> lex_le(
                        #[trigger] v@[k].spec_callsign(),
                        v@[i as int].spec_callsign(),
                    ),
                p < i ==> !lex_le(v@[p as int].spec_callsign(), v@[i as int].spec_callsign()),
            decreases i - p,
        {
            if !str_le(v[p].callsign_str(), v[i].callsign_str()) {
                break ;
            }
            p = p + 1;
        }
        let ghost x = pre[i as int];
        let moved = v.remove(i);
        v.insert(p, moved);
        proof {
            broadcast use vstd::seq_lib::to_multiset_insert;
            broadcast use vstd::seq_lib::to_multiset_remove;
            broadcast use vstd::multiset::group_multiset_axioms;

            let mid = pre.remove(i as int);
            pre.remove_ensures(i as int);
            mid.insert_ensures(p as int, x);
            // The record moved within the sequence; the multiset of
            // records is unchanged.
            assert(pre.to_multiset().count(x) >= 1) by {
                broadcast use vstd::seq_lib::group_to_multiset_ensures;

                assert(pre.contains(x));
            }
            assert(v@.to_multiset() =~= pre.to_multiset());
            // The record landed after everything that sorts no later and
            // before everything that sorts strictly after: the prefix one
            // longer is sorted.
            if p < i {
                lemma_lex_le_total(pre[p as int].spec_callsign(), x.spec_callsign());
            }
            assert forall|a: int, b: int| 0 <= a < b < i + 1 implies #[trigger] lex_le(
                v@.take(i as int + 1)[a].spec_callsign(),
                v@.take(i as int + 1)[b].spec_callsign(),
            ) by {
                let na = v@[a];
                let nb = v@[b];
                assert(v@.take(i as int + 1)[a] == na);
                assert(v@.take(i as int + 1)[b] == nb);
                assert(forall|c: int, d: int|
                    0 <= c < d < i ==> #[trigger] lex_le(
                        pre.take(i as int)[c].spec_callsign(),
                        pre.take(i as int)[d].spec_callsign(),
                    ));
                assert(forall|c: int| 0 <= c < i ==> pre.take(i as int)[c] == pre[c]);
                if a == p && b > p {
                    // na is the moved record; everything after it in the
                    // prefix sorted strictly after it.
                    assert(na == x);
                    assert(nb == pre[b - 1]);
                    if b - 1 > p {
                        lemma_lex_le_trans(
                            x.spec_callsign(),
                            pre[p as int].spec_callsign(),
                            pre[b - 1].spec_callsign(),
                        );
                    }
                }
            }
            assert(sorted_by_callsign(v@.take(i as int + 1)));
            // Stability: the record moved only across records whose
            // callsigns sort strictly after its own, so under every one
            // callsign the order is untouched.
            let csx = x.spec_callsign();
            let a1 = pre.take(p as int);
            let between = pre.subrange(p as int, i as int);
            let tail = pre.skip(i as int + 1);
            assert(pre =~= a1 + between + seq![x] + tail);
            assert(v@ =~= a1 + seq![x] + between + tail);
            assert forall|k: int| 0 <= k < between.len() implies #[trigger] between[k]
                .spec_callsign() != csx by {
                assert(between[k] == pre[p + k]);
                if between[k].spec_callsign() == csx {
                    if k == 0 {
                        lemma_lex_le_refl(csx);
                        assert(pre[p as int].spec_callsign() == csx);
                    } else {
                        assert(pre.take(i as int)[p as int] == pre[p as int]);
                        assert(pre.take(i as int)[p + k] == pre[p + k]);
                        assert(lex_le(
                            pre.take(i as int)[p as int].spec_callsign(),
                            pre.take(i as int)[p + k].spec_callsign(),
                        ));
                    }
                    assert(lex_le(pre[p as int].spec_callsign(), csx));
                    assert(false);
                }
            }
            assert forall|c: Seq<char>| #[trigger] with_callsign(v@, c) == with_callsign(
                pre,
                c,
            ) by {
                lemma_with_callsign_add(a1 + between + seq![x], tail, c);
                lemma_with_callsign_add(a1 + between, seq![x], c);
                lemma_with_callsign_add(a1, between, c);
                lemma_with_callsign_add(a1 + seq![x] + between, tail, c);
                lemma_with_callsign_add(a1 + seq![x], between, c);
                lemma_with_callsign_add(a1, seq![x], c);
                reveal_with_fuel(Seq::filter, 3);
                assert(seq![x].drop_last() =~= Seq::<T>::empty());
                assert(with_callsign(Seq::<T>::empty(), c) =~= Seq::<T>::empty());
                if c == csx {
                    lemma_with_callsign_none(between, c);
                    assert(with_callsign(seq![x], c) =~= seq![x]);
                    assert(with_callsign(v@, c) =~= with_callsign(pre, c));
                } else {
                    assert(with_callsign(seq![x], c) =~= Seq::<T>::empty());
                    assert(with_callsign(v@, c) =~= with_callsign(pre, c));
                }
            }
        }
        i = i + 1;
    }
    proof {
        assert(v@.take(v@.len() as int) =~= v@);
    }
    v
}

/// Access to the live APIs: the pair of feed URLs that one client
/// instance selected when it was constructed. The pair never changes for
/// the life of the instance; a caller wanting a fresh selection constructs
/// a new one.
#[derive(Clone, Debug, PartialEq)]
pub struct Vatsim {
    /// The URL every snapshot fetch of this instance targets.
    pub v3_url: String,
    /// The URL every transceiver fetch of this instance targets.
    pub transceivers_url: String,
}

/// Relies on `rand::random_range` over `0..n`: it panics only on an empty
/// range and returns a value of the range. Nothing more is assumed of the
/// value; it is random.
#[verifier::external_body]
fn random_below(n: usize) -> (r: usize)
    requires
        n > 0,
    ensures
        r < n,
{
    rand::random_range(0..n)
}

impl Vatsim {
    /// Select one URL per feed type, uniformly at random, from the
    /// candidate lists of a decoded status response. An empty live-data
    /// list fails with `NoV3Url`, then an empty transceivers list with
    /// `NoTransceiversUrl`; otherwise each chosen URL is one of that
    /// feed's candidates.
    pub fn from_status_data(data: &StatusData) -> (r: Result<Vatsim, VatsimUtilError>)
        ensures
            data.v3@.len() == 0 ==> r == Err::<Vatsim, VatsimUtilError>(VatsimUtilError::NoV3Url()),
            data.v3@.len() > 0 && data.transceivers@.len() == 0 ==> r == Err::<
                Vatsim,
                VatsimUtilError,
            >(VatsimUtilError::NoTransceiversUrl()),
            data.v3@.len() > 0 && data.transceivers@.len() > 0 ==> {
                &&& r is Ok
                &&& exists|i: int|
                    0 <= i < data.v3@.len() && r->Ok_0.v3_url@ == #[trigger] data.v3@[i]@
                &&& exists|i: int|
                    0 <= i < data.transceivers@.len() && r->Ok_0.transceivers_url@
                        == #[trigger] data.transceivers@[i]@
            },
    {
        if data.v3.len() == 0 {
            return Err(VatsimUtilError::NoV3Url());
        }
        if data.transceivers.len() == 0 {
            return Err(VatsimUtilError::NoTransceiversUrl());
        }
        let vi = random_below(data.v3.len());
        let ti = random_below(data.transceivers.len());
        let v3_url = data.v3[vi].clone();
        let transceivers_url = data.transceivers[ti].clone();
        proof {
            assert(v3_url@ == data.v3@[vi as int]@);
            assert(transceivers_url@ == data.transceivers@[ti as int]@);
        }
        Ok(Vatsim { v3_url, transceivers_url })
    }
}

impl V3ResponseData {
    /// The same snapshot with the pilot and controller sequences each
    /// sorted ascending by callsign, stably; every other part is
    /// unchanged. This ordering is a contract of the snapshot fetch,
    /// applied whatever order the upstream feed used.
    pub fn into_sorted(self) -> (r: V3ResponseData)
        ensures
            sorted_by_callsign(r.pilots@),
            r.pilots@.to_multiset() == self.pilots@.to_multiset(),
            forall|c: Seq<char>| #[trigger] with_callsign(r.pilots@, c) == with_callsign(
                self.pilots@,
                c,
            ),
            sorted_by_callsign(r.controllers@),
            r.controllers@.to_multiset() == self.controllers@.to_multiset(),
            forall|c: Seq<char>| #[trigger] with_callsign(r.controllers@, c) == with_callsign(
                self.controllers@,
                c,
            ),
            r.general == self.general,
            r.atis == self.atis,
            r.servers == self.servers,
            r.facilities == self.facilities,
            r.ratings == self.ratings,
            r.pilot_ratings == self.pilot_ratings,
    {
        let V3ResponseData {
            general,
            pilots,
            controllers,
            atis,
            servers,
            facilities,
            ratings,
            pilot_ratings,
        } = self;
        V3ResponseData {
            general,
            pilots: sort_by_callsign(pilots),
            controllers: sort_by_callsign(controllers),
            atis,
            servers,
            facilities,
            ratings,
            pilot_ratings,
        }
    }
}

} // verus!
