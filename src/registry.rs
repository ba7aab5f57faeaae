//! The table of pending requests: fingerprint to continuation token.

use vstd::prelude::*;
use crate::types::{ContinuationToken, RequestView, SignatureRequest};

verus! {

broadcast use vstd::seq_lib::group_seq_properties;

/// One pending request and the suspension that waits for its signature.
#[derive(Debug)]
pub struct PendingEntry {
    pub request: SignatureRequest,
    pub token: ContinuationToken,
}

/// The mathematical value of a [`PendingEntry`].
pub struct EntryView {
    pub request: RequestView,
    pub token: Seq<u8>,
}

impl View for PendingEntry {
    type V = EntryView;

    open spec fn view(&self) -> EntryView {
        EntryView { request: self.request@, token: self.token@ }
    }
}

/// No two entries of `s` share a fingerprint.
pub open spec fn fingerprints_unique(s: Seq<EntryView>) -> bool {
    forall|i: int, j: int|
        0 <= i < s.len() && 0 <= j < s.len() && s[i].request == s[j].request ==> i == j
}

/// Some entry of `s` has fingerprint `q`.
pub open spec fn has_request(s: Seq<EntryView>, q: RequestView) -> bool {
    exists|i: int| 0 <= i < s.len() && s[i].request == q
}

/// Some entry of `s` waits on token `t`.
pub open spec fn has_token(s: Seq<EntryView>, t: Seq<u8>) -> bool {
    exists|i: int| 0 <= i < s.len() && s[i].token == t
}

/// The table after registering `q` with token `t`: an entry with the same
/// fingerprint takes the new token in place, else the entry is appended.
pub open spec fn inserted(s: Seq<EntryView>, q: RequestView, t: Seq<u8>) -> Seq<EntryView> {
    if has_request(s, q) {
        s.map_values(|e: EntryView| if e.request == q { EntryView { request: q, token: t } } else { e })
    } else {
        s.push(EntryView { request: q, token: t })
    }
}

/// The table after the suspension `t` was resumed: every entry that waits
/// on `t` is gone, the others stay in order.
pub open spec fn without_token(s: Seq<EntryView>, t: Seq<u8>) -> Seq<EntryView> {
    s.filter(|e: EntryView| e.token != t)
}

/// The views of a sequence of entries.
pub open spec fn view_of(s: Seq<PendingEntry>) -> Seq<EntryView> {
    s.map_values(|e: PendingEntry| e@)
}

/// The pending requests, at most one per fingerprint.
pub struct RequestRegistry {
    entries: Vec<PendingEntry>,
}

impl View for RequestRegistry {
    type V = Seq<EntryView>;

    closed spec fn view(&self) -> Seq<EntryView> {
        view_of(self.entries@)
    }
}

impl RequestRegistry {
    /// The table holds at most one entry per fingerprint.
    #[verifier::type_invariant]
    spec fn wf(&self) -> bool {
        fingerprints_unique(self@)
    }

    /// An empty table.
    pub fn new() -> (r: RequestRegistry)
        ensures
            r@ == Seq::<EntryView>::empty(),
    {
        let r = RequestRegistry { entries: Vec::new() };
        assert(r@ =~= Seq::<EntryView>::empty());
        r
    }

    /// The number of pending requests.
    pub fn len(&self) -> (r: usize)
        ensures
            r == self@.len(),
    {
        self.entries.len()
    }

    /// Whether a request with the fingerprint of `request` is pending.
    pub fn contains(&self, request: &SignatureRequest) -> (r: bool)
        ensures
            r == has_request(self@, request@),
    {
        let mut i: usize = 0;
        while i < self.entries.len()
            invariant
                0 <= i <= self.entries@.len(),
                self@.len() == self.entries@.len(),
                forall|j: int| 0 <= j < i ==> self@[j].request != request@,
            decreases self.entries@.len() - i,
        {
            if self.entries[i].request.same_fingerprint(request) {
                assert(self@[i as int].request == request@);
                return true;
            }
            i = i + 1;
        }
        false
    }

    /// Registers `request` as waiting on `token`. Returns `true` when an
    /// entry with the same fingerprint was pending: that entry now holds
    /// `token`, and the suspension it held before is no longer referenced.
    pub fn insert(&mut self, request: SignatureRequest, token: ContinuationToken) -> (overwrote: bool)
        ensures
            fingerprints_unique(final(self)@),
            overwrote == has_request(old(self)@, request@),
            final(self)@ == inserted(old(self)@, request@, token@),
    {
        proof {
            use_type_invariant(&*self);
        }
        let ghost s = self@;
        let ghost q = request@;
        let mut entries: Vec<PendingEntry> = Vec::new();
        std::mem::swap(&mut self.entries, &mut entries);
        let mut i: usize = 0;
        while i < entries.len()
            invariant
                0 <= i <= entries@.len(),
                view_of(entries@) == s,
                s == old(self)@,
                s.len() == entries@.len(),
                fingerprints_unique(s),
                q == request@,
                forall|j: int| 0 <= j < i ==> s[j].request != q,
            decreases entries@.len() - i,
        {
            if entries[i].request.same_fingerprint(&request) {
                entries[i].token = token;
                proof {
                    assert(s[i as int].request == q);
                    assert(has_request(s, q));
                    let f = |e: EntryView| if e.request == q { EntryView { request: q, token: token@ } } else { e };
                    assert forall|j: int| 0 <= j < s.len() implies #[trigger] view_of(entries@)[j] == f(s[j]) by {
                        if j != i {
                            assert(s[j].request != q);
                        }
                    }
                    assert(view_of(entries@) =~= s.map_values(f));
                    lemma_insert_keeps_unique(s, q, token@);
                }
                std::mem::swap(&mut self.entries, &mut entries);
                return true;
            }
            i = i + 1;
        }
        entries.push(PendingEntry { request, token });
        proof {
            assert(view_of(entries@) =~= inserted(s, q, token@));
            lemma_insert_keeps_unique(s, q, token@);
        }
        std::mem::swap(&mut self.entries, &mut entries);
        false
    }

    /// Removes every entry that waits on `token`. Returns whether there was
    /// one; when there was none the table is left as it was.
    pub fn remove_token(&mut self, token: &ContinuationToken) -> (removed: bool)
        ensures
            fingerprints_unique(final(self)@),
            removed == has_token(old(self)@, token@),
            final(self)@ == without_token(old(self)@, token@),
    {
        proof {
            use_type_invariant(&*self);
        }
        let ghost s = self@;
        let ghost t = token@;
        let ghost keep = |e: EntryView| e.token != t;
        let ghost n = s.len();
        let mut rest: Vec<PendingEntry> = Vec::new();
        std::mem::swap(&mut self.entries, &mut rest);
        let mut kept: Vec<PendingEntry> = Vec::new();
        proof {
            assert(view_of(kept@) =~= Seq::<EntryView>::empty());
            assert(s.subrange(0, 0) =~= Seq::<EntryView>::empty());
            reveal(Seq::filter);
            assert(view_of(rest@) =~= s.subrange(0, n as int));
        }
        let mut removed = false;
        while rest.len() > 0
            invariant
                rest@.len() <= n,
                n == s.len(),
                t == token@,
                keep == (|e: EntryView| e.token != t),
                view_of(rest@) =~= s.subrange(n - rest@.len(), n as int),
                view_of(kept@) == s.subrange(0, n - rest@.len()).filter(keep),
                removed == has_token(s.subrange(0, n - rest@.len()), t),
            decreases rest@.len(),
        {
            let ghost k = n - rest@.len();
            let ghost r0 = rest@;
            let e = rest.remove(0);
            proof {
                assert(view_of(r0)[0] == s.subrange(k, n as int)[0]);
                assert(e@ == s[k]);
            }
            if e.token.same_as(token) {
                removed = true;
            } else {
                kept.push(e);
            }
            proof {
                lemma_filter_step(s, k, keep);
                assert forall|j: int| 0 <= j < rest@.len() implies #[trigger] rest@[j]@ == s[k + 1 + j] by {
                    assert(view_of(r0)[j + 1] == s.subrange(k, n as int)[j + 1]);
                }
                assert(view_of(rest@) =~= s.subrange(n - rest@.len(), n as int));
                assert(view_of(kept@) =~= s.subrange(0, k + 1).filter(keep));
                lemma_has_token_step(s, k, t);
            }
        }
        proof {
            assert(s.subrange(0, n as int) =~= s);
            lemma_without_token_keeps_unique(s, t);
        }
        std::mem::swap(&mut self.entries, &mut kept);
        removed
    }
}


/// One more element of `s` seen by a filter.
proof fn lemma_filter_step(s: Seq<EntryView>, k: int, keep: spec_fn(EntryView) -> bool)
    requires
        0 <= k < s.len(),
    ensures
        s.subrange(0, k + 1).filter(keep) == (if keep(s[k]) {
            s.subrange(0, k).filter(keep).push(s[k])
        } else {
            s.subrange(0, k).filter(keep)
        }),
{
    reveal(Seq::filter);
    assert(s.subrange(0, k + 1).drop_last() =~= s.subrange(0, k));
}

/// One more element of `s` searched for token `t`.
proof fn lemma_has_token_step(s: Seq<EntryView>, k: int, t: Seq<u8>)
    requires
        0 <= k < s.len(),
    ensures
        has_token(s.subrange(0, k + 1), t) == (has_token(s.subrange(0, k), t) || s[k].token == t),
{
    let a = s.subrange(0, k);
    let b = s.subrange(0, k + 1);
    if has_token(a, t) {
        let i = choose|i: int| 0 <= i < a.len() && a[i].token == t;
        assert(b[i] == a[i]);
    }
    if s[k].token == t {
        assert(b[k] == s[k]);
    }
    if has_token(b, t) {
        let i = choose|i: int| 0 <= i < b.len() && b[i].token == t;
        if i < k {
            assert(a[i] == b[i]);
        }
    }
}

/// Dropping the entries of a token keeps fingerprints unique.
pub proof fn lemma_without_token_keeps_unique(s: Seq<EntryView>, t: Seq<u8>)
    requires
        fingerprints_unique(s),
    ensures
        fingerprints_unique(without_token(s, t)),
    decreases s.len(),
{
    reveal(Seq::filter);
    let keep = |e: EntryView| e.token != t;
    if s.len() > 0 {
        let d = s.drop_last();
        lemma_without_token_keeps_unique(d, t);
        let f = d.filter(keep);
        assert(f == without_token(d, t));
        if keep(s.last()) {
            let g = f.push(s.last());
            assert forall|i: int, j: int|
                0 <= i < g.len() && 0 <= j < g.len() && g[i].request == g[j].request implies i == j by {
                if i < f.len() && j == f.len() {
                    d.lemma_filter_contains_rev(keep, f[i]);
                    let m = choose|m: int| 0 <= m < d.len() && d[m] == f[i];
                    assert(s[m].request == s[s.len() - 1].request);
                } else if j < f.len() && i == f.len() {
                    d.lemma_filter_contains_rev(keep, f[j]);
                    let m = choose|m: int| 0 <= m < d.len() && d[m] == f[j];
                    assert(s[m].request == s[s.len() - 1].request);
                } else if i < f.len() && j < f.len() {
                    assert(g[i] == f[i] && g[j] == f[j]);
                }
            }
            assert(without_token(s, t) == g);
        } else {
            assert(without_token(s, t) == f);
        }
    }
}

/// Registering `q` leaves exactly one entry with its fingerprint, waiting
/// on `t`, and keeps fingerprints unique.
pub proof fn lemma_insert_keeps_unique(s: Seq<EntryView>, q: RequestView, t: Seq<u8>)
    requires
        fingerprints_unique(s),
    ensures
        fingerprints_unique(inserted(s, q, t)),
        has_request(inserted(s, q, t), q),
        forall|i: int|
            0 <= i < inserted(s, q, t).len() && #[trigger] inserted(s, q, t)[i].request == q
                ==> inserted(s, q, t)[i].token == t,
{
    let r = inserted(s, q, t);
    if has_request(s, q) {
        let k = choose|k: int| 0 <= k < s.len() && s[k].request == q;
        assert(r[k].request == q);
        assert forall|i: int, j: int|
            0 <= i < r.len() && 0 <= j < r.len() && r[i].request == r[j].request implies i == j by {
            assert(r[i].request == s[i].request);
            assert(r[j].request == s[j].request);
        }
    } else {
        assert(r[s.len() as int].request == q);
        assert forall|i: int, j: int|
            0 <= i < r.len() && 0 <= j < r.len() && r[i].request == r[j].request implies i == j by {
            if i < s.len() && j < s.len() {
                assert(r[i] == s[i] && r[j] == s[j]);
            }
        }
    }
}

/// Two registrations of one fingerprint never leave two live entries for
/// it: a single entry remains, waiting on the later token.
pub proof fn lemma_duplicate_request_single_entry(
    s: Seq<EntryView>,
    q: RequestView,
    t1: Seq<u8>,
    t2: Seq<u8>,
)
    requires
        fingerprints_unique(s),
    ensures
        ({
            let r = inserted(inserted(s, q, t1), q, t2);
            &&& fingerprints_unique(r)
            &&& has_request(r, q)
            &&& forall|i: int| 0 <= i < r.len() && #[trigger] r[i].request == q ==> r[i].token == t2
        }),
{
    lemma_insert_keeps_unique(s, q, t1);
    lemma_insert_keeps_unique(inserted(s, q, t1), q, t2);
}

/// A table in which every entry is kept is its own filter.
proof fn lemma_filter_keeps_all(s: Seq<EntryView>, keep: spec_fn(EntryView) -> bool)
    requires
        forall|i: int| 0 <= i < s.len() ==> keep(#[trigger] s[i]),
    ensures
        s.filter(keep) == s,
    decreases s.len(),
{
    reveal(Seq::filter);
    if s.len() > 0 {
        lemma_filter_keeps_all(s.drop_last(), keep);
        assert(s.drop_last().push(s.last()) =~= s);
    }
}

/// Resuming a token removes its entries at the first call: no entry waits
/// on it afterwards, and a second resumption leaves the table unchanged.
pub proof fn lemma_finalize_removes_once(s: Seq<EntryView>, t: Seq<u8>)
    ensures
        !has_token(without_token(s, t), t),
        without_token(without_token(s, t), t) == without_token(s, t),
{
    let keep = |e: EntryView| e.token != t;
    let f = s.filter(keep);
    assert forall|i: int| 0 <= i < f.len() implies keep(#[trigger] f[i]) by {
        s.lemma_filter_pred(keep, i);
    }
    lemma_filter_keeps_all(f, keep);
}

} // verus!
