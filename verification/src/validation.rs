//! Per-peripheral model-validation results and their tallies: what was checked
//! and against which authority, with unrecorded results counted as a gap,
//! never as a pass.
use vstd::prelude::*;
use vstd::string::StringSliceAdditionalSpecFns;

verus! {

/// Outcome of one validation check on a peripheral model.
#[derive(Debug, Clone, Copy, PartialEq, Eq, Structural)]
pub enum CheckStatus {
    /// The model matched the authority.
    Pass,
    /// The model disagreed with the authority.
    Fail,
    /// The authority does not cover this peripheral.
    NotApplicable,
    /// In scope but no result recorded yet.
    Unrecorded,
}

/// The status a recorded status word (as UTF-8 bytes) denotes: `pass`, `fail`,
/// `na`, and anything else is unrecorded.
pub open spec fn status_of_word(w: Seq<u8>) -> CheckStatus {
    if w == seq![0x70u8, 0x61, 0x73, 0x73] {
        CheckStatus::Pass
    } else if w == seq![0x66u8, 0x61, 0x69, 0x6c] {
        CheckStatus::Fail
    } else if w == seq![0x6eu8, 0x61] {
        CheckStatus::NotApplicable
    } else {
        CheckStatus::Unrecorded
    }
}

fn bytes_equal(a: &[u8], b: &[u8]) -> (r: bool)
    ensures
        r == (a@ == b@),
{
    if a.len() != b.len() {
        return false;
    }
    let mut i: usize = 0;
    while i < a.len()
        invariant
            0 <= i <= a@.len(),
            a@.len() == b@.len(),
            a@.subrange(0, i as int) == b@.subrange(0, i as int),
        decreases a@.len() - i,
    {
        if a[i] != b[i] {
            return false;
        }
        assert(a@.subrange(0, i + 1) =~= a@.subrange(0, i as int).push(a@[i as int]));
        assert(b@.subrange(0, i + 1) =~= b@.subrange(0, i as int).push(b@[i as int]));
        i = i + 1;
    }
    assert(a@ =~= a@.subrange(0, i as int));
    assert(b@ =~= b@.subrange(0, i as int));
    true
}

impl CheckStatus {
    /// Reads a recorded status word.
    pub fn parse(s: &str) -> (r: CheckStatus)
        ensures
            r == status_of_word(s.spec_bytes()),
    {
        let b = s.as_bytes();
        let pass: [u8; 4] = [0x70, 0x61, 0x73, 0x73];
        let fail: [u8; 4] = [0x66, 0x61, 0x69, 0x6c];
        let na: [u8; 2] = [0x6e, 0x61];
        assert(pass@ =~= seq![0x70u8, 0x61, 0x73, 0x73]);
        assert(fail@ =~= seq![0x66u8, 0x61, 0x69, 0x6c]);
        assert(na@ =~= seq![0x6eu8, 0x61]);
        if bytes_equal(b, pass.as_slice()) {
            CheckStatus::Pass
        } else if bytes_equal(b, fail.as_slice()) {
            CheckStatus::Fail
        } else if bytes_equal(b, na.as_slice()) {
            CheckStatus::NotApplicable
        } else {
            CheckStatus::Unrecorded
        }
    }

    /// The label used in the rendered report.
    pub fn label(self) -> (r: &'static str)
        ensures
            self == CheckStatus::Pass ==> r@ == "PASS"@,
            self == CheckStatus::Fail ==> r@ == "FAIL"@,
            self == CheckStatus::NotApplicable ==> r@ == "n/a"@,
            self == CheckStatus::Unrecorded ==> r@ == "unrecorded"@,
    {
        match self {
            CheckStatus::Pass => "PASS",
            CheckStatus::Fail => "FAIL",
            CheckStatus::NotApplicable => "n/a",
            CheckStatus::Unrecorded => "unrecorded",
        }
    }
}

/// One peripheral's validation against one authority, with provenance.
#[derive(Debug, Clone)]
pub struct PeripheralValidation {
    pub peripheral: String,
    pub status: CheckStatus,
    /// The authority the model was checked against.
    pub authority: String,
    /// Link or path to the run that backs the result.
    pub evidence: Option<String>,
}

/// How many of `ps` have status `st`.
pub open spec fn count_status(ps: Seq<PeripheralValidation>, st: CheckStatus) -> nat
    decreases ps.len(),
{
    if ps.len() == 0 {
        0
    } else {
        count_status(ps.drop_last(), st) + if ps.last().status == st {
            1nat
        } else {
            0nat
        }
    }
}

/// Per-status tallies of a report.
#[derive(Debug, Clone, Copy, PartialEq, Eq)]
pub struct StatusCounts {
    pub pass: usize,
    pub fail: usize,
    pub not_applicable: usize,
    pub unrecorded: usize,
}

impl StatusCounts {
    /// Peripherals the authority covers: everything but `n/a`.
    pub fn applicable(&self) -> (r: usize)
        requires
            self.pass + self.fail + self.unrecorded <= usize::MAX,
        ensures
            r == self.pass + self.fail + self.unrecorded,
    {
        self.pass + self.fail + self.unrecorded
    }
}

/// Every peripheral is counted under exactly one status.
pub proof fn lemma_counts_partition(ps: Seq<PeripheralValidation>)
    ensures
        count_status(ps, CheckStatus::Pass) + count_status(ps, CheckStatus::Fail) + count_status(
            ps,
            CheckStatus::NotApplicable,
        ) + count_status(ps, CheckStatus::Unrecorded) == ps.len(),
    decreases ps.len(),
{
    if ps.len() > 0 {
        lemma_counts_partition(ps.drop_last());
    }
}

/// Tallies the statuses of `peripherals`.
pub fn count_statuses(peripherals: &[PeripheralValidation]) -> (r: StatusCounts)
    ensures
        r.pass == count_status(peripherals@, CheckStatus::Pass),
        r.fail == count_status(peripherals@, CheckStatus::Fail),
        r.not_applicable == count_status(peripherals@, CheckStatus::NotApplicable),
        r.unrecorded == count_status(peripherals@, CheckStatus::Unrecorded),
{
    let mut c = StatusCounts { pass: 0, fail: 0, not_applicable: 0, unrecorded: 0 };
    let mut i: usize = 0;
    while i < peripherals.len()
        invariant
            0 <= i <= peripherals@.len(),
            c.pass == count_status(peripherals@.subrange(0, i as int), CheckStatus::Pass),
            c.fail == count_status(peripherals@.subrange(0, i as int), CheckStatus::Fail),
            c.not_applicable == count_status(
                peripherals@.subrange(0, i as int),
                CheckStatus::NotApplicable,
            ),
            c.unrecorded == count_status(
                peripherals@.subrange(0, i as int),
                CheckStatus::Unrecorded,
            ),
        decreases peripherals@.len() - i,
    {
        let ghost next = peripherals@.subrange(0, i + 1);
        assert(next.drop_last() =~= peripherals@.subrange(0, i as int));
        proof {
            lemma_counts_partition(peripherals@.subrange(0, i as int));
        }
        match peripherals[i].status {
            CheckStatus::Pass => c.pass = c.pass + 1,
            CheckStatus::Fail => c.fail = c.fail + 1,
            CheckStatus::NotApplicable => c.not_applicable = c.not_applicable + 1,
            CheckStatus::Unrecorded => c.unrecorded = c.unrecorded + 1,
        }
        i = i + 1;
    }
    assert(peripherals@.subrange(0, peripherals@.len() as int) =~= peripherals@);
    c
}

} // verus!
