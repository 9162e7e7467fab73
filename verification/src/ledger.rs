//! The single-use coupon store.
//!
//! A ledger maps coupon codes to a `used` flag. Its one mutating operation on
//! the claim path, [`CouponLedger::claim`], reads the flag and, if and only
//! if it is clear, sets it — in one step, under one `&mut` borrow. That
//! exclusive borrow is the linearization point: no two callers can interleave
//! a read and a write on the same code, so at most one claim of a code ever
//! succeeds.

use vstd::prelude::*;

verus! {

/// One coupon: an opaque code and whether its grant has been spent.
pub struct CouponEntry {
    pub code: String,
    pub used: bool,
}

/// Outcome of a claim.
#[derive(PartialEq, Eq, Structural, Clone, Copy, Debug)]
pub enum ClaimOutcome {
    /// The code existed unused and is now marked used.
    Claimed,
    /// No such code exists; nothing changed.
    NotFound,
    /// The code was already used; nothing changed.
    AlreadyUsed,
}

/// The store a sequence of entries stands for: each code maps to the `used`
/// flag of its last entry.
pub open spec fn ledger_map(s: Seq<CouponEntry>) -> Map<Seq<char>, bool>
    decreases s.len(),
{
    if s.len() == 0 {
        Map::empty()
    } else {
        ledger_map(s.drop_last()).insert(s.last().code@, s.last().used)
    }
}

/// No two entries share a code.
pub open spec fn codes_unique(s: Seq<CouponEntry>) -> bool {
    forall|i: int, j: int| 0 <= i < j < s.len() ==> #[trigger] s[i].code@ != #[trigger] s[j].code@
}

/// What a claim returns, as a function of the store and the code.
pub open spec fn claim_outcome_spec(m: Map<Seq<char>, bool>, code: Seq<char>) -> ClaimOutcome {
    if !m.contains_key(code) {
        ClaimOutcome::NotFound
    } else if m[code] {
        ClaimOutcome::AlreadyUsed
    } else {
        ClaimOutcome::Claimed
    }
}

/// The store after a claim: unchanged unless the claim succeeded.
pub open spec fn claim_post_spec(m: Map<Seq<char>, bool>, code: Seq<char>) -> Map<Seq<char>, bool> {
    if claim_outcome_spec(m, code) is Claimed {
        m.insert(code, true)
    } else {
        m
    }
}

proof fn lemma_ledger_map_contains(s: Seq<CouponEntry>, k: Seq<char>)
    ensures
        ledger_map(s).contains_key(k) <==> exists|i: int| 0 <= i < s.len() && s[i].code@ == k,
    decreases s.len(),
{
    if s.len() > 0 {
        lemma_ledger_map_contains(s.drop_last(), k);
        if s.last().code@ == k {
            assert(s[s.len() - 1].code@ == k);
        } else {
            if exists|i: int| 0 <= i < s.drop_last().len() && s.drop_last()[i].code@ == k {
                let i = choose|i: int| 0 <= i < s.drop_last().len() && s.drop_last()[i].code@ == k;
                assert(s[i].code@ == k);
            }
            if exists|i: int| 0 <= i < s.len() && s[i].code@ == k {
                let i = choose|i: int| 0 <= i < s.len() && s[i].code@ == k;
                assert(s.drop_last()[i].code@ == k);
            }
        }
    }
}

proof fn lemma_ledger_map_value(s: Seq<CouponEntry>, i: int)
    requires
        codes_unique(s),
        0 <= i < s.len(),
    ensures
        ledger_map(s).contains_key(s[i].code@),
        ledger_map(s)[s[i].code@] == s[i].used,
    decreases s.len(),
{
    if i == s.len() - 1 {
    } else {
        lemma_ledger_map_value(s.drop_last(), i);
        assert(s.drop_last()[i] == s[i]);
        assert(s.last().code@ != s[i].code@);
    }
}

proof fn lemma_ledger_map_update(s: Seq<CouponEntry>, i: int, e: CouponEntry)
    requires
        codes_unique(s),
        0 <= i < s.len(),
        s[i].code@ == e.code@,
    ensures
        codes_unique(s.update(i, e)),
        ledger_map(s.update(i, e)) == ledger_map(s).insert(e.code@, e.used),
    decreases s.len(),
{
    let t = s.update(i, e);
    assert forall|a: int, b: int| 0 <= a < b < t.len() implies t[a].code@ != t[b].code@ by {
        assert(s[a].code@ != s[b].code@);
    }
    if i == s.len() - 1 {
        assert(t.drop_last() =~= s.drop_last());
        assert(t.last() == e);
        assert(ledger_map(t) == ledger_map(s.drop_last()).insert(e.code@, e.used));
        assert(ledger_map(s.drop_last()).insert(s.last().code@, s.last().used).insert(
            e.code@,
            e.used,
        ) =~= ledger_map(s.drop_last()).insert(e.code@, e.used));
    } else {
        assert(t.drop_last() =~= s.drop_last().update(i, e));
        assert(t.last() == s.last());
        lemma_ledger_map_update(s.drop_last(), i, e);
        assert(s.last().code@ != e.code@);
        assert(ledger_map(s.drop_last()).insert(e.code@, e.used).insert(
            s.last().code@,
            s.last().used,
        ) =~= ledger_map(s.drop_last()).insert(s.last().code@, s.last().used).insert(
            e.code@,
            e.used,
        ));
    }
}

/// The persistent single-use-code store, with atomic claim semantics.
pub struct CouponLedger {
    entries: Vec<CouponEntry>,
}

impl CouponLedger {
    /// Codes never repeat among the entries.
    pub closed spec fn wf(&self) -> bool {
        codes_unique(self.entries@)
    }

    /// An empty store.
    pub fn new() -> (ledger: CouponLedger)
        ensures
            ledger.wf(),
            ledger@ == Map::<Seq<char>, bool>::empty(),
    {
        CouponLedger { entries: Vec::new() }
    }

    /// Adds a fresh, unused code; reports whether it was new. Provisioning
    /// happens out-of-band of claiming — nothing here marks a code used.
    pub fn provision(&mut self, code: String) -> (added: bool)
        requires
            old(self).wf(),
        ensures
            final(self).wf(),
            added == !old(self)@.contains_key(code@),
            final(self)@ == if added {
                old(self)@.insert(code@, false)
            } else {
                old(self)@
            },
    {
        proof {
            lemma_ledger_map_contains(self.entries@, code@);
        }
        let n = self.entries.len();
        let mut i: usize = 0;
        while i < n
            invariant
                self.entries@ == old(self).entries@,
                codes_unique(self.entries@),
                n == self.entries@.len(),
                i <= n,
                forall|j: int| 0 <= j < i ==> self.entries@[j].code@ != code@,
            decreases n - i,
        {
            if self.entries[i].code == code {
                proof {
                    lemma_ledger_map_contains(self.entries@, code@);
                }
                return false;
            }
            i = i + 1;
        }
        proof {
            lemma_ledger_map_contains(self.entries@, code@);
        }
        let ghost pre = self.entries@;
        self.entries.push(CouponEntry { code, used: false });
        proof {
            assert(self.entries@.drop_last() =~= pre);
        }
        true
    }

    /// Atomically claims a code: reads the `used` flag and, exactly when it
    /// is clear, sets it. An unknown code and a spent code are told apart,
    /// and neither mutates the store.
    pub fn claim(&mut self, code: &String) -> (outcome: ClaimOutcome)
        requires
            old(self).wf(),
        ensures
            final(self).wf(),
            outcome == claim_outcome_spec(old(self)@, code@),
            final(self)@ == claim_post_spec(old(self)@, code@),
    {
        proof {
            lemma_ledger_map_contains(self.entries@, code@);
        }
        let n = self.entries.len();
        let mut i: usize = 0;
        while i < n
            invariant
                self.entries@ == old(self).entries@,
                codes_unique(self.entries@),
                n == self.entries@.len(),
                i <= n,
                forall|j: int| 0 <= j < i ==> self.entries@[j].code@ != code@,
            decreases n - i,
        {
            if self.entries[i].code == *code {
                proof {
                    lemma_ledger_map_contains(self.entries@, code@);
                    lemma_ledger_map_value(self.entries@, i as int);
                }
                if self.entries[i].used {
                    return ClaimOutcome::AlreadyUsed;
                }
                let ghost pre = self.entries@;
                proof {
                    lemma_ledger_map_update(
                        pre,
                        i as int,
                        CouponEntry { code: pre[i as int].code, used: true },
                    );
                }
                self.entries[i].used = true;
                proof {
                    assert(self.entries@ =~= pre.update(
                        i as int,
                        CouponEntry { code: pre[i as int].code, used: true },
                    ));
                }
                return ClaimOutcome::Claimed;
            }
            i = i + 1;
        }
        proof {
            lemma_ledger_map_contains(self.entries@, code@);
        }
        ClaimOutcome::NotFound
    }

    /// Clears the `used` flag of a code, compensating a claim whose voucher
    /// could not be produced; a grant is never silently lost.
    pub fn release(&mut self, code: &String) -> (found: bool)
        requires
            old(self).wf(),
        ensures
            final(self).wf(),
            found == old(self)@.contains_key(code@),
            final(self)@ == if found {
                old(self)@.insert(code@, false)
            } else {
                old(self)@
            },
    {
        proof {
            lemma_ledger_map_contains(self.entries@, code@);
        }
        let n = self.entries.len();
        let mut i: usize = 0;
        while i < n
            invariant
                self.entries@ == old(self).entries@,
                codes_unique(self.entries@),
                n == self.entries@.len(),
                i <= n,
                forall|j: int| 0 <= j < i ==> self.entries@[j].code@ != code@,
            decreases n - i,
        {
            if self.entries[i].code == *code {
                let ghost pre = self.entries@;
                proof {
                    lemma_ledger_map_contains(self.entries@, code@);
                    lemma_ledger_map_update(
                        pre,
                        i as int,
                        CouponEntry { code: pre[i as int].code, used: false },
                    );
                }
                self.entries[i].used = false;
                proof {
                    assert(self.entries@ =~= pre.update(
                        i as int,
                        CouponEntry { code: pre[i as int].code, used: false },
                    ));
                }
                return true;
            }
            i = i + 1;
        }
        proof {
            lemma_ledger_map_contains(self.entries@, code@);
        }
        false
    }

    /// Whether a code is present and spent; a read-only probe.
    pub fn is_used(&self, code: &String) -> (r: Option<bool>)
        requires
            self.wf(),
        ensures
            r == if self@.contains_key(code@) {
                Some(self@[code@])
            } else {
                None::<bool>
            },
    {
        proof {
            lemma_ledger_map_contains(self.entries@, code@);
        }
        let n = self.entries.len();
        let mut i: usize = 0;
        while i < n
            invariant
                codes_unique(self.entries@),
                n == self.entries@.len(),
                i <= n,
                forall|j: int| 0 <= j < i ==> self.entries@[j].code@ != code@,
            decreases n - i,
        {
            if self.entries[i].code == *code {
                proof {
                    lemma_ledger_map_contains(self.entries@, code@);
                    lemma_ledger_map_value(self.entries@, i as int);
                }
                return Some(self.entries[i].used);
            }
            i = i + 1;
        }
        proof {
            lemma_ledger_map_contains(self.entries@, code@);
        }
        None
    }
}

impl View for CouponLedger {
    type V = Map<Seq<char>, bool>;

    closed spec fn view(&self) -> Map<Seq<char>, bool> {
        ledger_map(self.entries@)
    }
}

/// Once a claim of a code succeeds, every later claim of that code reports
/// it already used, and a claim that did not succeed leaves the store as it
/// was: a code's grant is spent at most once, whatever the order of callers.
pub proof fn lemma_claim_single_use(m: Map<Seq<char>, bool>, code: Seq<char>)
    ensures
        claim_outcome_spec(m, code) is Claimed ==> claim_outcome_spec(
            claim_post_spec(m, code),
            code,
        ) is AlreadyUsed,
        !(claim_outcome_spec(m, code) is Claimed) ==> claim_post_spec(m, code) == m,
{
}

/// Outcomes of `n` successive claims of one code, each on the store the
/// previous one left.
pub open spec fn repeated_claims(m: Map<Seq<char>, bool>, code: Seq<char>, n: nat) -> Seq<
    ClaimOutcome,
>
    decreases n,
{
    if n == 0 {
        Seq::empty()
    } else {
        seq![claim_outcome_spec(m, code)] + repeated_claims(claim_post_spec(m, code), code, (n - 1) as nat)
    }
}

proof fn lemma_repeated_claims_len(m: Map<Seq<char>, bool>, code: Seq<char>, n: nat)
    ensures
        repeated_claims(m, code, n).len() == n,
    decreases n,
{
    if n > 0 {
        lemma_repeated_claims_len(claim_post_spec(m, code), code, (n - 1) as nat);
    }
}

/// Of `n` claims of one provisioned, unused code, the first succeeds and
/// every other one is refused as already used: exactly one caller wins.
pub proof fn lemma_exactly_one_claim_wins(m: Map<Seq<char>, bool>, code: Seq<char>, n: nat)
    requires
        m.contains_key(code),
        m[code] == false,
        n >= 1,
    ensures
        repeated_claims(m, code, n)[0] is Claimed,
        forall|i: int| 1 <= i < n ==> repeated_claims(m, code, n)[i] is AlreadyUsed,
{
    let post = claim_post_spec(m, code);
    lemma_repeated_claims_len(post, code, (n - 1) as nat);
    lemma_all_claims_refused(post, code, (n - 1) as nat);
    assert forall|i: int| 1 <= i < n implies repeated_claims(m, code, n)[i] is AlreadyUsed by {
        assert(repeated_claims(m, code, n)[i] == repeated_claims(post, code, (n - 1) as nat)[i - 1]);
    }
}

/// On a store where the code is already spent, every claim of it is refused
/// and nothing ever changes.
pub proof fn lemma_all_claims_refused(m: Map<Seq<char>, bool>, code: Seq<char>, n: nat)
    requires
        m.contains_key(code),
        m[code] == true,
    ensures
        forall|i: int| 0 <= i < n ==> repeated_claims(m, code, n)[i] is AlreadyUsed,
    decreases n,
{
    if n > 0 {
        assert(claim_post_spec(m, code) == m);
        lemma_repeated_claims_len(m, code, (n - 1) as nat);
        lemma_all_claims_refused(m, code, (n - 1) as nat);
        assert forall|i: int| 0 <= i < n implies repeated_claims(m, code, n)[i] is AlreadyUsed by {
            if i > 0 {
                assert(repeated_claims(m, code, n)[i] == repeated_claims(m, code, (n - 1) as nat)[
                    i - 1]);
            }
        }
    }
}

} // verus!
