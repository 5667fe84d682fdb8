//! The billing event: the unit of work of the pipeline, together with the
//! decimal model behind its monetary amounts and the event invariants.
use vstd::prelude::*;

verus! {

use vstd::arithmetic::power::{pow, lemma_pow_adds, lemma_pow_increases, lemma_pow_positive};
use vstd::arithmetic::mul::lemma_mul_strict_inequality;

// ---------------------------------------------------------------------------
// Decimal amount strings
//
// Monetary amounts travel as decimal strings ("30.00") so that no floating
// point ever touches them.  A decimal string is one or more digits, without a
// superfluous leading zero, optionally followed by '.' and one or more
// digits.  Its value is mantissa / 10^scale, kept as the pair
// (mantissa, scale); two amounts are compared by bringing them to a common
// scale.  Mileage uses the same grammar (it is a non-negative decimal).
// ---------------------------------------------------------------------------

pub open spec fn is_digit(c: char) -> bool {
    c == '0' || c == '1' || c == '2' || c == '3' || c == '4' || c == '5' || c == '6' || c == '7'
        || c == '8' || c == '9'
}

pub open spec fn digit_val(c: char) -> int {
    if c == '0' {
        0
    } else if c == '1' {
        1
    } else if c == '2' {
        2
    } else if c == '3' {
        3
    } else if c == '4' {
        4
    } else if c == '5' {
        5
    } else if c == '6' {
        6
    } else if c == '7' {
        7
    } else if c == '8' {
        8
    } else {
        9
    }
}

/// Scan of a decimal string after its first digit: `dot` says whether the
/// decimal point was already seen, `m` is the mantissa so far and `f` the
/// number of fraction digits so far.
pub open spec fn dec_scan(s: Seq<char>, i: int, dot: bool, m: int, f: nat) -> Option<(int, nat)>
    decreases s.len() - i,
{
    if i < 0 || i >= s.len() {
        if dot && f == 0 {
            None
        } else {
            Some((m, f))
        }
    } else if is_digit(s[i]) {
        dec_scan(s, i + 1, dot, m * 10 + digit_val(s[i]), if dot {
            f + 1
        } else {
            0nat
        })
    } else if s[i] == '.' && !dot {
        dec_scan(s, i + 1, true, m, 0)
    } else {
        None
    }
}

/// The value of a decimal string as (mantissa, number of fraction digits),
/// or `None` when the string is not a decimal.
pub open spec fn parse_decimal(s: Seq<char>) -> Option<(int, nat)> {
    if s.len() > 0 && is_digit(s[0]) && !(s[0] == '0' && s.len() > 1 && is_digit(s[1])) {
        dec_scan(s, 1, false, digit_val(s[0]), 0)
    } else {
        None
    }
}

pub open spec fn max3(a: nat, b: nat, c: nat) -> nat {
    if a >= b && a >= c {
        a
    } else if b >= c {
        b
    } else {
        c
    }
}

/// The amount invariant of one event, over the three amount strings: whenever
/// both charge amounts parse as decimals, the total parses too and equals
/// their sum once all three are brought to a common scale.
pub open spec fn spec_amounts_ok(other: Seq<char>, freight: Seq<char>, total: Seq<char>) -> bool {
    match (parse_decimal(other), parse_decimal(freight)) {
        (Some((mo, fo)), Some((mf, ff))) => match parse_decimal(total) {
            Some((mt, ft)) => {
                let fm = max3(fo, ff, ft);
                mt * pow(10, (fm - ft) as nat) == mo * pow(10, (fm - fo) as nat) + mf * pow(
                    10,
                    (fm - ff) as nat,
                )
            },
            None => false,
        },
        _ => true,
    }
}

// ---------------------------------------------------------------------------
// The event
// ---------------------------------------------------------------------------

/// One billing event, as carried on the wire.  Amounts and mileage are
/// decimal strings; `pieces` and `weight` are non-negative integers.
#[derive(Debug, Clone)]
pub struct BillingEvent {
    pub id: String,
    pub order_type: String,
    pub revenue_code: String,
    pub customer: String,
    pub invoice_number: String,
    pub pieces: u32,
    pub weight: u32,
    pub bill_type: String,
    pub ready_to_bill: bool,
    pub bill_date: String,
    pub mileage: String,
    pub worker: String,
    pub commodity: String,
    pub commodity_descr: String,
    pub consignee_ref_number: String,
    pub other_charge_amount: String,
    pub freight_charge_amount: String,
    pub total_amount: String,
    pub is_summary: bool,
    pub is_cancelled: bool,
    pub bol_number: String,
    pub user: String,
}

/// The mathematical model of an event: every text field as its character
/// sequence.
#[verifier::ext_equal]
pub struct EventModel {
    pub id: Seq<char>,
    pub order_type: Seq<char>,
    pub revenue_code: Seq<char>,
    pub customer: Seq<char>,
    pub invoice_number: Seq<char>,
    pub pieces: u32,
    pub weight: u32,
    pub bill_type: Seq<char>,
    pub ready_to_bill: bool,
    pub bill_date: Seq<char>,
    pub mileage: Seq<char>,
    pub worker: Seq<char>,
    pub commodity: Seq<char>,
    pub commodity_descr: Seq<char>,
    pub consignee_ref_number: Seq<char>,
    pub other_charge_amount: Seq<char>,
    pub freight_charge_amount: Seq<char>,
    pub total_amount: Seq<char>,
    pub is_summary: bool,
    pub is_cancelled: bool,
    pub bol_number: Seq<char>,
    pub user: Seq<char>,
}

impl View for BillingEvent {
    type V = EventModel;

    open spec fn view(&self) -> EventModel {
        EventModel {
            id: self.id@,
            order_type: self.order_type@,
            revenue_code: self.revenue_code@,
            customer: self.customer@,
            invoice_number: self.invoice_number@,
            pieces: self.pieces,
            weight: self.weight,
            bill_type: self.bill_type@,
            ready_to_bill: self.ready_to_bill,
            bill_date: self.bill_date@,
            mileage: self.mileage@,
            worker: self.worker@,
            commodity: self.commodity@,
            commodity_descr: self.commodity_descr@,
            consignee_ref_number: self.consignee_ref_number@,
            other_charge_amount: self.other_charge_amount@,
            freight_charge_amount: self.freight_charge_amount@,
            total_amount: self.total_amount@,
            is_summary: self.is_summary,
            is_cancelled: self.is_cancelled,
            bol_number: self.bol_number@,
            user: self.user@,
        }
    }
}

impl EventModel {
    /// Mileage is a well-formed decimal: the one structural demand encoding
    /// makes, since mileage is the one field written as a bare JSON number.
    pub open spec fn wf(self) -> bool {
        parse_decimal(self.mileage) is Some
    }

    /// The amount invariant: for a non-summary event whose charge amounts
    /// parse as decimals, the total equals their sum.
    pub open spec fn amounts_ok(self) -> bool {
        self.is_summary || spec_amounts_ok(
            self.other_charge_amount,
            self.freight_charge_amount,
            self.total_amount,
        )
    }

    /// A cancelled event is never ready to bill.
    pub open spec fn flags_ok(self) -> bool {
        !(self.is_cancelled && self.ready_to_bill)
    }

    /// A valid event: well-formed and meeting the event invariants.
    pub open spec fn valid(self) -> bool {
        self.wf() && self.amounts_ok() && self.flags_ok()
    }
}

impl PartialEq for BillingEvent {
    fn eq(&self, o: &BillingEvent) -> (r: bool) {
        self.id == o.id && self.order_type == o.order_type && self.revenue_code == o.revenue_code
            && self.customer == o.customer && self.invoice_number == o.invoice_number
            && self.pieces == o.pieces && self.weight == o.weight && self.bill_type == o.bill_type
            && self.ready_to_bill == o.ready_to_bill && self.bill_date == o.bill_date
            && self.mileage == o.mileage && self.worker == o.worker && self.commodity
            == o.commodity && self.commodity_descr == o.commodity_descr
            && self.consignee_ref_number == o.consignee_ref_number && self.other_charge_amount
            == o.other_charge_amount && self.freight_charge_amount == o.freight_charge_amount
            && self.total_amount == o.total_amount && self.is_summary == o.is_summary
            && self.is_cancelled == o.is_cancelled && self.bol_number == o.bol_number && self.user
            == o.user
    }
}

impl vstd::std_specs::cmp::PartialEqSpecImpl for BillingEvent {
    open spec fn obeys_eq_spec() -> bool {
        true
    }

    open spec fn eq_spec(&self, o: &BillingEvent) -> bool {
        self@ =~= o@
    }
}

// ---------------------------------------------------------------------------
// Executable decimal arithmetic
// ---------------------------------------------------------------------------

/// 10^e, for exponents small enough that every amount computation below
/// stays inside u128.
pub fn pow10(e: u32) -> (r: u128)
    requires
        e <= 34,
    ensures
        r as int == pow(10, e as nat),
{
    proof {
        vstd::arithmetic::power::lemma_pow0(10);
    }
    let mut j: u32 = 0;
    let mut acc: u128 = 1;
    while j < e
        invariant
            j <= e <= 34,
            acc as int == pow(10, j as nat),
        decreases e - j,
    {
        proof {
            lemma_pow10_34();
            lemma_pow_adds(10, j as nat, 1);
            vstd::arithmetic::power::lemma_pow1(10);
            lemma_pow_increases(10, (j + 1) as nat, 34);
        }
        acc = acc * 10;
        j = j + 1;
    }
    acc
}

/// Concrete bounds for 10^17 and 10^34, used in overflow arguments.
pub proof fn lemma_pow10_34()
    ensures
        pow(10, 17) == 0x16345785d8a0000,
        pow(10, 34) == 0x16345785d8a0000 * 0x16345785d8a0000,
        pow(10, 34) < u128::MAX,
{
    assert(pow(10, 17) == 0x16345785d8a0000) by {
        reveal_with_fuel(pow, 18);
    }
    lemma_pow_adds(10, 17, 17);
}

/// Parses a decimal string to (mantissa, scale); `None` exactly when the
/// string is not a decimal.  The length bound is a machine limit: it keeps
/// the mantissa inside u128 (and in fact under 10^17).
pub fn dec_parse(s: &str) -> (r: Option<(u128, u32)>)
    requires
        s@.len() <= 17,
    ensures
        match r {
            Some(p) => parse_decimal(s@) == Some((p.0 as int, p.1 as nat)) && p.0 < 0x16345785d8a0000
                && p.1 <= 17,
            None => parse_decimal(s@) is None,
        },
{
    proof {
        lemma_pow10_34();
    }
    let n = s.unicode_len();
    if n == 0 {
        return None;
    }
    let c0 = s.get_char(0);
    let d0 = match c0 {
        '0' => 0u8,
        '1' => 1u8,
        '2' => 2u8,
        '3' => 3u8,
        '4' => 4u8,
        '5' => 5u8,
        '6' => 6u8,
        '7' => 7u8,
        '8' => 8u8,
        '9' => 9u8,
        _ => { return None },
    };
    if c0 == '0' && n > 1 {
        let c1 = s.get_char(1);
        if matches!(c1, '0'|'1'|'2'|'3'|'4'|'5'|'6'|'7'|'8'|'9') {
            return None;
        }
    }
    let mut m: u128 = d0 as u128;
    let mut f: u32 = 0;
    let mut dot: bool = false;
    let mut i: usize = 1;
    proof {
        vstd::arithmetic::power::lemma_pow1(10);
    }
    while i < n
        invariant
            1 <= i <= n,
            n == s@.len() <= 17,
            f <= i,
            m < pow(10, i as nat),
            pow(10, 17) == 0x16345785d8a0000,
            dec_scan(s@, i as int, dot, m as int, f as nat) == parse_decimal(s@),
            !dot ==> f == 0,
        decreases n - i,
    {
        proof {
            lemma_pow_adds(10, i as nat, 1);
            vstd::arithmetic::power::lemma_pow1(10);
            lemma_pow_increases(10, (i + 1) as nat, 17);
        }
        let c = s.get_char(i);
        match c {
            '0' | '1' | '2' | '3' | '4' | '5' | '6' | '7' | '8' | '9' => {
                let d: u8 = match c {
                    '0' => 0u8,
                    '1' => 1u8,
                    '2' => 2u8,
                    '3' => 3u8,
                    '4' => 4u8,
                    '5' => 5u8,
                    '6' => 6u8,
                    '7' => 7u8,
                    '8' => 8u8,
                    _ => 9u8,
                };
                m = m * 10 + d as u128;
                if dot {
                    f = f + 1;
                }
            },
            '.' => {
                if dot {
                    return None;
                }
                dot = true;
                f = 0;
            },
            _ => {
                return None;
            },
        }
        i = i + 1;
    }
    if dot && f == 0 {
        return None;
    }
    proof {
        lemma_pow_increases(10, i as nat, 17);
    }
    Some((m, f))
}

/// Decides whether a string is a decimal, without any length limit (the
/// mantissa is never materialised).
pub fn dec_check(s: &str) -> (r: bool)
    ensures
        r == (parse_decimal(s@) is Some),
{
    let n = s.unicode_len();
    if n == 0 {
        return false;
    }
    let c0 = s.get_char(0);
    if !matches!(c0, '0'|'1'|'2'|'3'|'4'|'5'|'6'|'7'|'8'|'9') {
        return false;
    }
    if c0 == '0' && n > 1 {
        let c1 = s.get_char(1);
        if matches!(c1, '0'|'1'|'2'|'3'|'4'|'5'|'6'|'7'|'8'|'9') {
            return false;
        }
    }
    let ghost mut gm: int = digit_val(c0);
    let ghost mut gf: nat = 0;
    let mut sawfrac: bool = false;
    let mut dot: bool = false;
    let mut i: usize = 1;
    while i < n
        invariant
            1 <= i <= n,
            n == s@.len(),
            sawfrac == (dot && gf > 0),
            !dot ==> gf == 0,
            dec_scan(s@, i as int, dot, gm, gf) == parse_decimal(s@),
        decreases n - i,
    {
        let c = s.get_char(i);
        match c {
            '0' | '1' | '2' | '3' | '4' | '5' | '6' | '7' | '8' | '9' => {
                proof {
                    gm = gm * 10 + digit_val(c);
                    if dot {
                        gf = gf + 1;
                    }
                }
                if dot {
                    sawfrac = true;
                }
            },
            '.' => {
                if dot {
                    return false;
                }
                dot = true;
                sawfrac = false;
                proof {
                    gf = 0;
                }
            },
            _ => {
                return false;
            },
        }
        i = i + 1;
    }
    !dot || sawfrac
}

/// Decides the amount invariant for three amount strings: whenever both
/// charge amounts parse, the total must parse and equal their sum at a
/// common scale.  Length bounds are machine limits (see `dec_parse`).
pub fn amounts_consistent(other: &str, freight: &str, total: &str) -> (r: bool)
    requires
        other@.len() <= 17,
        freight@.len() <= 17,
        total@.len() <= 17,
    ensures
        r == spec_amounts_ok(other@, freight@, total@),
{
    let po = dec_parse(other);
    let pf = dec_parse(freight);
    match (po, pf) {
        (Some((mo, fo)), Some((mf, ff))) => {
            match dec_parse(total) {
                Some((mt, ft)) => {
                    let fm = if fo >= ff && fo >= ft {
                        fo
                    } else if ff >= ft {
                        ff
                    } else {
                        ft
                    };
                    proof {
                        lemma_pow10_34();
                        lemma_scaled_in_range(mt as int, (fm - ft) as nat);
                        lemma_scaled_in_range(mo as int, (fm - fo) as nat);
                        lemma_scaled_in_range(mf as int, (fm - ff) as nat);
                    }
                    let st = mt * pow10(fm - ft);
                    let so = mo * pow10(fm - fo);
                    let sf = mf * pow10(fm - ff);
                    st == so + sf
                },
                None => false,
            }
        },
        _ => true,
    }
}

/// A mantissa under 10^17, scaled by at most 10^17, stays under 10^34.
proof fn lemma_scaled_in_range(m: int, d: nat)
    requires
        0 <= m < pow(10, 17),
        d <= 17,
    ensures
        0 <= m * pow(10, d) < pow(10, 34),
        pow(10, d) >= 1,
{
    lemma_pow_positive(10, d);
    lemma_pow_positive(10, 17);
    lemma_pow_increases(10, d, 17);
    lemma_pow_adds(10, 17, 17);
    vstd::arithmetic::mul::lemma_mul_nonnegative(m, pow(10, d));
    vstd::arithmetic::mul::lemma_mul_upper_bound(m, pow(10, 17) - 1, pow(10, d), pow(10, 17));
    lemma_mul_strict_inequality(pow(10, 17) - 1, pow(10, 17), pow(10, 17));
}

impl BillingEvent {
    /// Decides validity of the event: well-formed mileage plus the amount
    /// and flag invariants.  Length bounds are machine limits (see
    /// `dec_parse`).
    pub fn validate(&self) -> (r: bool)
        requires
            self.mileage@.len() <= 17,
            self.other_charge_amount@.len() <= 17,
            self.freight_charge_amount@.len() <= 17,
            self.total_amount@.len() <= 17,
        ensures
            r == self@.valid(),
    {
        let mileage_ok = dec_parse(self.mileage.as_str()).is_some();
        let flags_ok = !(self.is_cancelled && self.ready_to_bill);
        let amounts_ok = self.is_summary || amounts_consistent(
            self.other_charge_amount.as_str(),
            self.freight_charge_amount.as_str(),
            self.total_amount.as_str(),
        );
        mileage_ok && flags_ok && amounts_ok
    }
}

// ---------------------------------------------------------------------------
// Law: the total of a valid non-summary event is the sum of its charges.
// ---------------------------------------------------------------------------

/// Law: for every valid event that is not a summary and whose two charge
/// amounts parse as decimals, the total amount parses as well and, at a
/// common scale, equals the sum of the two charges.
pub proof fn lemma_total_is_sum(m: EventModel)
    requires
        m.valid(),
        !m.is_summary,
        parse_decimal(m.other_charge_amount) is Some,
        parse_decimal(m.freight_charge_amount) is Some,
    ensures
        parse_decimal(m.total_amount) is Some,
        ({
            let (mo, fo) = parse_decimal(m.other_charge_amount)->Some_0;
            let (mf, ff) = parse_decimal(m.freight_charge_amount)->Some_0;
            let (mt, ft) = parse_decimal(m.total_amount)->Some_0;
            let fm = max3(fo, ff, ft);
            mt * pow(10, (fm - ft) as nat) == mo * pow(10, (fm - fo) as nat) + mf * pow(
                10,
                (fm - ff) as nat,
            )
        }),
{
}

} // verus!
