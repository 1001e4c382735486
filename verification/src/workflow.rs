use vstd::prelude::*;

use crate::account::AccountId;
use crate::plan::CallNode;

verus! {

/// What the aggregator records about a swap it could not validate, by the
/// swap's position in the fan-out.
#[derive(Clone, Copy, Debug, PartialEq, Eq, Structural)]
pub enum Diagnostic {
    SwapFailed { index: usize },
    SwapNotReady { index: usize },
    PayloadUnreadable { index: usize },
}

/// How one dispatched call ended, as the host reports it to the joined
/// continuation: a payload on success, or one of two failure shapes. The
/// outcomes of a buy workflow's swap fan-out are indexed by the node's
/// position in that fan-out, which is the asset-list order.
pub enum CallOutcome {
    Succeeded(Vec<u8>),
    Failed,
    NotReady,
}

/// The continuation context of one buy workflow: who bought, and how much
/// of the basket token every swap must deliver at least.
pub struct AggregatorTask {
    pub buyer: AccountId,
    pub expected_amount: u128,
}

/// Where one buy workflow stands.
pub enum WorkflowState {
    /// Dispatched; the aggregator runs once every swap outcome is in.
    AwaitingSwaps(AggregatorTask),
    /// The aggregator validated every delivery and issued the mint.
    Resolved,
    /// The aggregator aborted the workflow; no mint was issued.
    Aborted,
}

/// A dispatched buy workflow: the call plan to hand to the host, and the
/// continuation state the aggregator will consume.
pub struct BuyWorkflow {
    pub plan: Vec<CallNode>,
    pub state: WorkflowState,
}

/// What the aggregator decided: the follow-up plan (withdrawals, then the
/// mint credit) and the per-asset diagnostics it recorded.
pub struct CallbackEffect {
    pub plan: Vec<CallNode>,
    pub diagnostics: Vec<Diagnostic>,
}

/// What `serde_json::from_slice::<String>` makes of `b`: the text of a JSON
/// string document, or nothing when `b` is not one.
pub uninterp spec fn json_text(b: Seq<u8>) -> Option<Seq<u8>>;

/// Relies on `serde_json::from_slice::<String>`: decodes a JSON string
/// document to its text. The result depends on the input bytes alone.
#[verifier::external_body]
fn parse_json_text(bytes: &Vec<u8>) -> (r: Option<Vec<u8>>)
    ensures
        match r {
            Some(t) => json_text(bytes@) == Some(t@),
            None => json_text(bytes@) is None,
        },
{
    match serde_json::from_slice::<String>(bytes.as_slice()) {
        Ok(s) => Some(s.into_bytes()),
        Err(_) => None,
    }
}

pub open spec fn is_ascii_digit(c: u8) -> bool {
    48 <= c <= 57
}

pub open spec fn all_digits(s: Seq<u8>) -> bool {
    forall|i: int| 0 <= i < s.len() ==> is_ascii_digit(#[trigger] s[i])
}

/// The number the digit string `s` denotes in decimal.
pub open spec fn digits_val(s: Seq<u8>) -> int
    decreases s.len(),
{
    if s.len() == 0 {
        0
    } else {
        digits_val(s.drop_last()) * 10 + (s.last() - 48)
    }
}

/// The amount a decimal text denotes: an optional leading plus sign, then
/// one or more digits, denoting a value that fits the balance type.
#[verifier::opaque]
pub open spec fn dec_u128(s: Seq<u8>) -> Option<u128> {
    let t = if s.len() > 0 && s[0] == 43 {
        s.drop_first()
    } else {
        s
    };
    if t.len() > 0 && all_digits(t) && digits_val(t) <= u128::MAX {
        Some(digits_val(t) as u128)
    } else {
        None
    }
}

/// The amount a swap payload reports: the decimal reading of the JSON
/// string the exchange service returned.
#[verifier::opaque]
pub open spec fn parsed_amount(b: Seq<u8>) -> Option<u128> {
    match json_text(b) {
        Some(t) => dec_u128(t),
        None => None,
    }
}

proof fn lemma_digits_nonneg(s: Seq<u8>)
    requires
        all_digits(s),
    ensures
        digits_val(s) >= 0,
    decreases s.len(),
{
    if s.len() > 0 {
        assert(all_digits(s.drop_last()));
        lemma_digits_nonneg(s.drop_last());
    }
}

/// A digit string denotes at least what any of its prefixes denotes.
proof fn lemma_digits_prefix(s: Seq<u8>, m: int)
    requires
        all_digits(s),
        0 <= m <= s.len(),
    ensures
        digits_val(s.take(m)) <= digits_val(s),
    decreases s.len() - m,
{
    if m == s.len() {
        assert(s.take(m) =~= s);
    } else {
        assert(s.take(m + 1).drop_last() =~= s.take(m));
        assert(s.take(m + 1).last() == s[m]);
        assert(all_digits(s.take(m))) by {
            assert(forall|i: int| 0 <= i < m ==> s.take(m)[i] == s[i]);
        }
        lemma_digits_nonneg(s.take(m));
        assert(digits_val(s.take(m)) <= digits_val(s.take(m + 1)));
        lemma_digits_prefix(s, m + 1);
    }
}

/// Reads a decimal text (optional leading plus sign, then digits) as an
/// amount; nothing when the text has another shape or denotes a value too
/// large for the balance type.
pub fn parse_u128_digits(s: &Vec<u8>) -> (r: Option<u128>)
    ensures
        r == dec_u128(s@),
{
    proof {
        reveal(dec_u128);
    }
    let mut i: usize = 0;
    if s.len() > 0 && s[0] == 43 {
        i = 1;
    }
    let ghost t: Seq<u8> = if s@.len() > 0 && s@[0] == 43 {
        s@.drop_first()
    } else {
        s@
    };
    let ghost off = i as int;
    assert(t.len() == s@.len() - off);
    assert(forall|j: int| 0 <= j < t.len() ==> t[j] == s@[j + off]);
    if i >= s.len() {
        return None;
    }
    let mut acc: u128 = 0;
    let mut j: usize = i;
    while j < s.len()
        invariant
            off <= j <= s@.len(),
            off == i,
            0 <= off <= 1,
            t == (if s@.len() > 0 && s@[0] == 43 {
                s@.drop_first()
            } else {
                s@
            }),
            t.len() == s@.len() - off,
            forall|m: int| 0 <= m < t.len() ==> t[m] == s@[m + off],
            all_digits(t.take(j - off)),
            acc == digits_val(t.take(j - off)),
        decreases s.len() - j,
    {
        let c = s[j];
        let ghost m = j - off;
        proof {
            reveal(dec_u128);
            assert(t[m] == c);
            assert(t.take(m + 1).drop_last() =~= t.take(m));
            assert(t.take(m + 1).last() == t[m]);
        }
        if c < 48 || c > 57 {
            proof {
                assert(!is_ascii_digit(t[m]));
                assert(!all_digits(t));
            }
            return None;
        }
        let d = (c - 48) as u128;
        if acc > (u128::MAX - d) / 10 {
            proof {
                assert(digits_val(t.take(m + 1)) == acc * 10 + d);
                assert(acc * 10 + d > u128::MAX) by (nonlinear_arith)
                    requires
                        acc > (u128::MAX - d) / 10,
                        d <= 9,
                ;
                if all_digits(t) {
                    lemma_digits_prefix(t, m + 1);
                }
            }
            return None;
        }
        proof {
            assert(acc * 10 + d <= u128::MAX) by (nonlinear_arith)
                requires
                    acc <= (u128::MAX - d) / 10,
                    d <= 9,
            ;
        }
        acc = acc * 10 + d;
        j = j + 1;
    }
    proof {
        reveal(dec_u128);
        assert(t.take(j - off) =~= t);
    }
    Some(acc)
}

/// Reads a swap payload as an amount: the decimal reading of the JSON
/// string it carries, or nothing when it has another shape.
pub fn parse_amount(bytes: &Vec<u8>) -> (r: Option<u128>)
    ensures
        r == parsed_amount(bytes@),
{
    proof {
        reveal(parsed_amount);
    }
    match parse_json_text(bytes) {
        Some(t) => parse_u128_digits(&t),
        None => None,
    }
}

/// A swap outcome that delivered at least the promised amount.
pub open spec fn delivered(o: CallOutcome, expected: u128) -> bool {
    o matches CallOutcome::Succeeded(p) && parsed_amount(p@) matches Some(a) && a >= expected
}

/// A swap outcome that reports less than the promised amount: the one shape
/// that aborts the whole workflow.
pub open spec fn under_delivered(o: CallOutcome, expected: u128) -> bool {
    o matches CallOutcome::Succeeded(p) && parsed_amount(p@) matches Some(a) && a < expected
}

/// A swap outcome the aggregator can only record a diagnostic for: a failed
/// or unresolved call, or a payload that does not parse as an amount.
pub open spec fn needs_diag(o: CallOutcome) -> bool {
    !(o matches CallOutcome::Succeeded(p) && parsed_amount(p@) is Some)
}

/// The diagnostic recorded for the outcome at position `i`.
pub open spec fn diag_for(o: CallOutcome, i: usize) -> Diagnostic {
    if o is Failed {
        Diagnostic::SwapFailed { index: i }
    } else if o is NotReady {
        Diagnostic::SwapNotReady { index: i }
    } else {
        Diagnostic::PayloadUnreadable { index: i }
    }
}

/// How many of the first `n` outcomes delivered.
pub open spec fn count_delivered(outs: Seq<CallOutcome>, expected: u128, n: int) -> int
    decreases n,
{
    if n <= 0 {
        0
    } else {
        count_delivered(outs, expected, n - 1) + if delivered(outs[n - 1], expected) {
            1int
        } else {
            0int
        }
    }
}

/// The diagnostics recorded over the first `n` outcomes, in order.
pub open spec fn diag_seq(outs: Seq<CallOutcome>, n: int) -> Seq<Diagnostic>
    decreases n,
{
    if n <= 0 {
        Seq::empty()
    } else if needs_diag(outs[n - 1]) {
        diag_seq(outs, n - 1).push(diag_for(outs[n - 1], (n - 1) as usize))
    } else {
        diag_seq(outs, n - 1)
    }
}

pub proof fn lemma_count_delivered_mono(outs: Seq<CallOutcome>, expected: u128, m: int, n: int)
    requires
        m <= n,
    ensures
        count_delivered(outs, expected, m) <= count_delivered(outs, expected, n),
    decreases n - m,
{
    if m < n {
        lemma_count_delivered_mono(outs, expected, m, n - 1);
    }
}


} // verus!
