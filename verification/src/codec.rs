//! The message codec: a billing event to and from its canonical UTF-8 JSON
//! wire form.
//!
//! Encoding is deterministic: one JSON object, the fields in a fixed order,
//! no whitespace, every text field as a JSON string with `"`, `\` and control
//! characters escaped, `pieces` and `weight` as JSON integers, the flags as
//! JSON booleans and `mileage` as a bare JSON number.  Decoding accepts the
//! members in any order, ignores unknown members (their values are skipped,
//! containers by bracket counting), accepts the common short escapes and
//! `\uXXXX` for scalar values outside the surrogate range, and reports
//! `DecodeError::Malformed` for broken UTF-8 or syntax and
//! `DecodeError::SchemaViolation` for a missing field or a field of the
//! wrong type.  Whitespace between tokens is not accepted: the codec reads
//! the compact form it writes.
use vstd::prelude::*;

verus! {

use vstd::utf8::{encode_utf8, decode_utf8, valid_utf8, is_scalar};
use crate::event::{BillingEvent, EventModel, is_digit, digit_val, parse_decimal, dec_scan};

// ---------------------------------------------------------------------------
// Fields and errors
// ---------------------------------------------------------------------------

/// The fields of a billing event, in wire order.
#[derive(Clone, Copy, PartialEq, Eq, Structural, Debug)]
pub enum Field {
    Id,
    OrderType,
    RevenueCode,
    Customer,
    InvoiceNumber,
    Pieces,
    Weight,
    BillType,
    ReadyToBill,
    BillDate,
    Mileage,
    Worker,
    Commodity,
    CommodityDescr,
    ConsigneeRefNumber,
    OtherChargeAmount,
    FreightChargeAmount,
    TotalAmount,
    IsSummary,
    IsCancelled,
    BolNumber,
    User,
}

/// Why a byte sequence failed to decode.
#[derive(Clone, Copy, PartialEq, Eq, Structural, Debug)]
pub enum DecodeError {
    /// Broken UTF-8 or broken JSON syntax.
    Malformed,
    /// A required field is missing or has the wrong type.
    SchemaViolation(Field),
}

/// Why an event could not be encoded.
#[derive(Clone, Copy, PartialEq, Eq, Structural, Debug)]
pub enum EncodeError {
    /// The named field holds a value with no JSON representation; only
    /// `mileage` can be affected, when it is not a decimal string.
    Unrepresentable(Field),
}

/// How a field's value is written on the wire.
#[derive(Clone, Copy, PartialEq, Eq, Structural, Debug)]
pub enum FieldKind {
    /// A JSON string.
    Text,
    /// A JSON non-negative integer.
    Count,
    /// A JSON boolean.
    Flag,
    /// A bare JSON number (mileage).
    Number,
}

pub open spec fn field_kind(f: Field) -> FieldKind {
    match f {
        Field::Pieces => FieldKind::Count,
        Field::Weight => FieldKind::Count,
        Field::ReadyToBill => FieldKind::Flag,
        Field::IsSummary => FieldKind::Flag,
        Field::IsCancelled => FieldKind::Flag,
        Field::Mileage => FieldKind::Number,
        _ => FieldKind::Text,
    }
}

pub open spec fn key_seq(f: Field) -> Seq<char> {
    match f {
        Field::Id => "id"@,
        Field::OrderType => "order_type"@,
        Field::RevenueCode => "revenue_code"@,
        Field::Customer => "customer"@,
        Field::InvoiceNumber => "invoice_number"@,
        Field::Pieces => "pieces"@,
        Field::Weight => "weight"@,
        Field::BillType => "bill_type"@,
        Field::ReadyToBill => "ready_to_bill"@,
        Field::BillDate => "bill_date"@,
        Field::Mileage => "mileage"@,
        Field::Worker => "worker"@,
        Field::Commodity => "commodity"@,
        Field::CommodityDescr => "commodity_descr"@,
        Field::ConsigneeRefNumber => "consignee_ref_number"@,
        Field::OtherChargeAmount => "other_charge_amount"@,
        Field::FreightChargeAmount => "freight_charge_amount"@,
        Field::TotalAmount => "total_amount"@,
        Field::IsSummary => "is_summary"@,
        Field::IsCancelled => "is_cancelled"@,
        Field::BolNumber => "bol_number"@,
        Field::User => "user"@,
    }
}

/// The wire order of the fields.
pub open spec fn field_order() -> Seq<Field> {
    seq![
        Field::Id,
        Field::OrderType,
        Field::RevenueCode,
        Field::Customer,
        Field::InvoiceNumber,
        Field::Pieces,
        Field::Weight,
        Field::BillType,
        Field::ReadyToBill,
        Field::BillDate,
        Field::Mileage,
        Field::Worker,
        Field::Commodity,
        Field::CommodityDescr,
        Field::ConsigneeRefNumber,
        Field::OtherChargeAmount,
        Field::FreightChargeAmount,
        Field::TotalAmount,
        Field::IsSummary,
        Field::IsCancelled,
        Field::BolNumber,
        Field::User,
    ]
}

/// Which field a member key names.
pub open spec fn key_of(k: Seq<char>) -> Option<Field> {
    if k == "id"@ {
        Some(Field::Id)
    } else if k == "order_type"@ {
        Some(Field::OrderType)
    } else if k == "revenue_code"@ {
        Some(Field::RevenueCode)
    } else if k == "customer"@ {
        Some(Field::Customer)
    } else if k == "invoice_number"@ {
        Some(Field::InvoiceNumber)
    } else if k == "pieces"@ {
        Some(Field::Pieces)
    } else if k == "weight"@ {
        Some(Field::Weight)
    } else if k == "bill_type"@ {
        Some(Field::BillType)
    } else if k == "ready_to_bill"@ {
        Some(Field::ReadyToBill)
    } else if k == "bill_date"@ {
        Some(Field::BillDate)
    } else if k == "mileage"@ {
        Some(Field::Mileage)
    } else if k == "worker"@ {
        Some(Field::Worker)
    } else if k == "commodity"@ {
        Some(Field::Commodity)
    } else if k == "commodity_descr"@ {
        Some(Field::CommodityDescr)
    } else if k == "consignee_ref_number"@ {
        Some(Field::ConsigneeRefNumber)
    } else if k == "other_charge_amount"@ {
        Some(Field::OtherChargeAmount)
    } else if k == "freight_charge_amount"@ {
        Some(Field::FreightChargeAmount)
    } else if k == "total_amount"@ {
        Some(Field::TotalAmount)
    } else if k == "is_summary"@ {
        Some(Field::IsSummary)
    } else if k == "is_cancelled"@ {
        Some(Field::IsCancelled)
    } else if k == "bol_number"@ {
        Some(Field::BolNumber)
    } else if k == "user"@ {
        Some(Field::User)
    } else {
        None
    }
}

// ---------------------------------------------------------------------------
// Model accessors
// ---------------------------------------------------------------------------

pub open spec fn model_text(m: EventModel, f: Field) -> Seq<char> {
    match f {
        Field::Id => m.id,
        Field::OrderType => m.order_type,
        Field::RevenueCode => m.revenue_code,
        Field::Customer => m.customer,
        Field::InvoiceNumber => m.invoice_number,
        Field::BillType => m.bill_type,
        Field::BillDate => m.bill_date,
        Field::Worker => m.worker,
        Field::Commodity => m.commodity,
        Field::CommodityDescr => m.commodity_descr,
        Field::ConsigneeRefNumber => m.consignee_ref_number,
        Field::OtherChargeAmount => m.other_charge_amount,
        Field::FreightChargeAmount => m.freight_charge_amount,
        Field::TotalAmount => m.total_amount,
        Field::BolNumber => m.bol_number,
        Field::User => m.user,
        _ => Seq::empty(),
    }
}

pub open spec fn model_count(m: EventModel, f: Field) -> u32 {
    match f {
        Field::Pieces => m.pieces,
        Field::Weight => m.weight,
        _ => 0u32,
    }
}

pub open spec fn model_flag(m: EventModel, f: Field) -> bool {
    match f {
        Field::ReadyToBill => m.ready_to_bill,
        Field::IsSummary => m.is_summary,
        Field::IsCancelled => m.is_cancelled,
        _ => false,
    }
}

// ---------------------------------------------------------------------------
// Printing (the encoding, as mathematics)
// ---------------------------------------------------------------------------

pub open spec fn hex_char(d: int) -> char {
    if d == 0 {
        '0'
    } else if d == 1 {
        '1'
    } else if d == 2 {
        '2'
    } else if d == 3 {
        '3'
    } else if d == 4 {
        '4'
    } else if d == 5 {
        '5'
    } else if d == 6 {
        '6'
    } else if d == 7 {
        '7'
    } else if d == 8 {
        '8'
    } else if d == 9 {
        '9'
    } else if d == 10 {
        'a'
    } else if d == 11 {
        'b'
    } else if d == 12 {
        'c'
    } else if d == 13 {
        'd'
    } else if d == 14 {
        'e'
    } else {
        'f'
    }
}

/// What one character of a text field becomes inside a JSON string.
pub open spec fn esc_char(c: char) -> Seq<char> {
    if c == '"' {
        seq!['\\', '"']
    } else if c == '\\' {
        seq!['\\', '\\']
    } else if (c as u32) < 0x20 {
        seq!['\\', 'u', '0', '0', hex_char((c as u32) as int / 16), hex_char((c as u32) as int % 16)]
    } else {
        seq![c]
    }
}

pub open spec fn esc(s: Seq<char>) -> Seq<char>
    decreases s.len(),
{
    if s.len() == 0 {
        Seq::empty()
    } else {
        esc_char(s[0]) + esc(s.drop_first())
    }
}

/// A JSON string: quote, escaped content, quote.
pub open spec fn jstr(s: Seq<char>) -> Seq<char> {
    seq!['"'] + esc(s) + seq!['"']
}

pub open spec fn digit_char(d: int) -> char {
    hex_char(if 0 <= d < 10 {
        d
    } else {
        0
    })
}

/// A non-negative integer in decimal.
pub open spec fn juint(n: nat) -> Seq<char>
    decreases n,
{
    if n < 10 {
        seq![digit_char(n as int)]
    } else {
        juint(n / 10).push(digit_char((n % 10) as int))
    }
}

pub open spec fn true_chars() -> Seq<char> {
    seq!['t', 'r', 'u', 'e']
}

pub open spec fn false_chars() -> Seq<char> {
    seq!['f', 'a', 'l', 's', 'e']
}

pub open spec fn jbool(b: bool) -> Seq<char> {
    if b {
        true_chars()
    } else {
        false_chars()
    }
}

/// The characters of one field's value on the wire.
pub open spec fn field_chars(m: EventModel, f: Field) -> Seq<char> {
    match field_kind(f) {
        FieldKind::Text => jstr(model_text(m, f)),
        FieldKind::Count => juint(model_count(m, f) as nat),
        FieldKind::Flag => jbool(model_flag(m, f)),
        FieldKind::Number => m.mileage,
    }
}

/// One member: quoted key, colon, value.
pub open spec fn member_chars(m: EventModel, f: Field) -> Seq<char> {
    jstr(key_seq(f)) + seq![':'] + field_chars(m, f)
}

/// The members from position `k` of the wire order to the closing brace.
pub open spec fn members_from(m: EventModel, k: int) -> Seq<char>
    decreases 22 - k,
{
    if k < 0 || k >= 22 {
        seq!['}']
    } else {
        member_chars(m, field_order()[k]) + (if k == 21 {
            seq!['}']
        } else {
            seq![','] + members_from(m, k + 1)
        })
    }
}

/// The canonical encoding of an event, as characters.
pub open spec fn enc_chars(m: EventModel) -> Seq<char> {
    seq!['{'] + members_from(m, 0)
}

/// The canonical encoding of an event, as bytes.
pub open spec fn spec_encode(m: EventModel) -> Seq<u8> {
    encode_utf8(enc_chars(m))
}

// ---------------------------------------------------------------------------
// Parsing (the decoding, as mathematics)
//
// Every parser takes the character sequence and a position and returns what
// it read together with the position after it, or nothing when the input is
// not in its language.
// ---------------------------------------------------------------------------

pub open spec fn hex_val(c: char) -> Option<u32> {
    if c == '0' {
        Some(0u32)
    } else if c == '1' {
        Some(1u32)
    } else if c == '2' {
        Some(2u32)
    } else if c == '3' {
        Some(3u32)
    } else if c == '4' {
        Some(4u32)
    } else if c == '5' {
        Some(5u32)
    } else if c == '6' {
        Some(6u32)
    } else if c == '7' {
        Some(7u32)
    } else if c == '8' {
        Some(8u32)
    } else if c == '9' {
        Some(9u32)
    } else if c == 'a' || c == 'A' {
        Some(10u32)
    } else if c == 'b' || c == 'B' {
        Some(11u32)
    } else if c == 'c' || c == 'C' {
        Some(12u32)
    } else if c == 'd' || c == 'D' {
        Some(13u32)
    } else if c == 'e' || c == 'E' {
        Some(14u32)
    } else if c == 'f' || c == 'F' {
        Some(15u32)
    } else {
        None
    }
}

/// The character named by a `\uXXXX` escape at position `i` (just after the
/// `u`), when all four digits are hexadecimal and the value is a Unicode
/// scalar.
pub open spec fn u_escape(v: Seq<char>, i: int) -> Option<char> {
    if i + 4 <= v.len() {
        match (hex_val(v[i]), hex_val(v[i + 1]), hex_val(v[i + 2]), hex_val(v[i + 3])) {
            (Some(h1), Some(h2), Some(h3), Some(h4)) => {
                let code = h1 * 0x1000 + h2 * 0x100 + h3 * 0x10 + h4;
                if 0xD800 <= code <= 0xDFFF {
                    None
                } else {
                    Some(code as char)
                }
            },
            _ => None,
        }
    } else {
        None
    }
}

/// The body of a JSON string from position `i` (just after the opening
/// quote): the unescaped content and the position after the closing quote.
pub open spec fn p_str_body(v: Seq<char>, i: int, acc: Seq<char>) -> Option<(Seq<char>, int)>
    decreases v.len() - i,
{
    if i < 0 || i >= v.len() {
        None
    } else if v[i] == '"' {
        Some((acc, i + 1))
    } else if v[i] == '\\' {
        if i + 1 >= v.len() {
            None
        } else {
            let e = v[i + 1];
            if e == '"' || e == '\\' || e == '/' {
                p_str_body(v, i + 2, acc.push(e))
            } else if e == 'n' {
                p_str_body(v, i + 2, acc.push('\n'))
            } else if e == 't' {
                p_str_body(v, i + 2, acc.push('\t'))
            } else if e == 'r' {
                p_str_body(v, i + 2, acc.push('\r'))
            } else if e == 'b' {
                p_str_body(v, i + 2, acc.push('\u{8}'))
            } else if e == 'f' {
                p_str_body(v, i + 2, acc.push('\u{c}'))
            } else if e == 'u' {
                match u_escape(v, i + 2) {
                    Some(c) => p_str_body(v, i + 6, acc.push(c)),
                    None => None,
                }
            } else {
                None
            }
        }
    } else if (v[i] as u32) < 0x20 {
        None
    } else {
        p_str_body(v, i + 1, acc.push(v[i]))
    }
}

/// A JSON string at position `i`.
pub open spec fn p_string(v: Seq<char>, i: int) -> Option<(Seq<char>, int)> {
    if 0 <= i < v.len() && v[i] == '"' {
        p_str_body(v, i + 1, Seq::empty())
    } else {
        None
    }
}

/// The characters a JSON number lexeme is made of.
pub open spec fn is_num_char(c: char) -> bool {
    is_digit(c) || c == '-' || c == '+' || c == '.' || c == 'e' || c == 'E'
}

pub open spec fn p_num_body(v: Seq<char>, i: int, acc: Seq<char>) -> (Seq<char>, int)
    decreases v.len() - i,
{
    if 0 <= i < v.len() && is_num_char(v[i]) {
        p_num_body(v, i + 1, acc.push(v[i]))
    } else {
        (acc, i)
    }
}

/// A JSON number lexeme at position `i`: the longest run of number
/// characters, which must be non-empty and start with a digit or a minus.
pub open spec fn p_num(v: Seq<char>, i: int) -> Option<(Seq<char>, int)> {
    if 0 <= i < v.len() && (is_digit(v[i]) || v[i] == '-') {
        Some(p_num_body(v, i, Seq::empty()))
    } else {
        None
    }
}

pub open spec fn matches_at(v: Seq<char>, i: int, pat: Seq<char>) -> bool {
    0 <= i && i + pat.len() <= v.len() && v.subrange(i, i + pat.len()) == pat
}

/// A JSON boolean at position `i`.
pub open spec fn p_flag(v: Seq<char>, i: int) -> Option<(bool, int)> {
    if matches_at(v, i, true_chars()) {
        Some((true, i + 4))
    } else if matches_at(v, i, false_chars()) {
        Some((false, i + 5))
    } else {
        None
    }
}

/// Skips one balanced container (object or array) starting at position `i`,
/// counting brackets and stepping over string content; the position after
/// the matching closer.  Tolerant: the inside is not held to the full
/// grammar, so that unknown members never fail a record.
pub open spec fn p_bal(v: Seq<char>, i: int, depth: nat, instr: bool, escnext: bool) -> Option<int>
    decreases v.len() - i,
{
    if i < 0 || i >= v.len() {
        None
    } else {
        let c = v[i];
        if instr {
            if escnext {
                p_bal(v, i + 1, depth, true, false)
            } else if c == '\\' {
                p_bal(v, i + 1, depth, true, true)
            } else if c == '"' {
                p_bal(v, i + 1, depth, false, false)
            } else {
                p_bal(v, i + 1, depth, true, false)
            }
        } else if c == '{' || c == '[' {
            p_bal(v, i + 1, depth + 1, false, false)
        } else if c == '}' || c == ']' {
            if depth == 1 {
                Some(i + 1)
            } else if depth == 0 {
                None
            } else {
                p_bal(v, i + 1, (depth - 1) as nat, false, false)
            }
        } else if c == '"' {
            p_bal(v, i + 1, depth, true, false)
        } else {
            p_bal(v, i + 1, depth, false, false)
        }
    }
}

/// Skips one JSON value of any type at position `i`; the position after it.
pub open spec fn p_skip(v: Seq<char>, i: int) -> Option<int> {
    if i < 0 || i >= v.len() {
        None
    } else {
        let c = v[i];
        if c == '"' {
            match p_string(v, i) {
                Some((s, j)) => Some(j),
                None => None,
            }
        } else if is_digit(c) || c == '-' {
            match p_num(v, i) {
                Some((s, j)) => Some(j),
                None => None,
            }
        } else if c == 't' {
            if matches_at(v, i, true_chars()) {
                Some(i + 4)
            } else {
                None
            }
        } else if c == 'f' {
            if matches_at(v, i, false_chars()) {
                Some(i + 5)
            } else {
                None
            }
        } else if c == 'n' {
            if matches_at(v, i, seq!['n', 'u', 'l', 'l']) {
                Some(i + 4)
            } else {
                None
            }
        } else if c == '{' || c == '[' {
            p_bal(v, i, 0, false, false)
        } else {
            None
        }
    }
}

/// A non-negative integer that fits in u32, from an all-digit lexeme.
pub open spec fn u32_scan(lex: Seq<char>, i: int, acc: int) -> Option<u32>
    decreases lex.len() - i,
{
    if i < 0 || i >= lex.len() {
        Some(acc as u32)
    } else if !is_digit(lex[i]) {
        None
    } else {
        let a2 = acc * 10 + digit_val(lex[i]);
        if a2 > u32::MAX {
            None
        } else {
            u32_scan(lex, i + 1, a2)
        }
    }
}

pub open spec fn lex_u32(lex: Seq<char>) -> Option<u32> {
    if lex.len() == 0 {
        None
    } else {
        u32_scan(lex, 0, 0)
    }
}

// ---------------------------------------------------------------------------
// The member map under construction
// ---------------------------------------------------------------------------

/// The fields gathered while the members of the object are read.
#[verifier::ext_equal]
pub struct PartialModel {
    pub id: Option<Seq<char>>,
    pub order_type: Option<Seq<char>>,
    pub revenue_code: Option<Seq<char>>,
    pub customer: Option<Seq<char>>,
    pub invoice_number: Option<Seq<char>>,
    pub pieces: Option<u32>,
    pub weight: Option<u32>,
    pub bill_type: Option<Seq<char>>,
    pub ready_to_bill: Option<bool>,
    pub bill_date: Option<Seq<char>>,
    pub mileage: Option<Seq<char>>,
    pub worker: Option<Seq<char>>,
    pub commodity: Option<Seq<char>>,
    pub commodity_descr: Option<Seq<char>>,
    pub consignee_ref_number: Option<Seq<char>>,
    pub other_charge_amount: Option<Seq<char>>,
    pub freight_charge_amount: Option<Seq<char>>,
    pub total_amount: Option<Seq<char>>,
    pub is_summary: Option<bool>,
    pub is_cancelled: Option<bool>,
    pub bol_number: Option<Seq<char>>,
    pub user: Option<Seq<char>>,
}

pub open spec fn pm_empty() -> PartialModel {
    PartialModel {
        id: None,
        order_type: None,
        revenue_code: None,
        customer: None,
        invoice_number: None,
        pieces: None,
        weight: None,
        bill_type: None,
        ready_to_bill: None,
        bill_date: None,
        mileage: None,
        worker: None,
        commodity: None,
        commodity_descr: None,
        consignee_ref_number: None,
        other_charge_amount: None,
        freight_charge_amount: None,
        total_amount: None,
        is_summary: None,
        is_cancelled: None,
        bol_number: None,
        user: None,
    }
}

pub open spec fn pm_set_text(p: PartialModel, f: Field, s: Seq<char>) -> PartialModel {
    match f {
        Field::Id => PartialModel { id: Some(s), ..p },
        Field::OrderType => PartialModel { order_type: Some(s), ..p },
        Field::RevenueCode => PartialModel { revenue_code: Some(s), ..p },
        Field::Customer => PartialModel { customer: Some(s), ..p },
        Field::InvoiceNumber => PartialModel { invoice_number: Some(s), ..p },
        Field::BillType => PartialModel { bill_type: Some(s), ..p },
        Field::BillDate => PartialModel { bill_date: Some(s), ..p },
        Field::Worker => PartialModel { worker: Some(s), ..p },
        Field::Commodity => PartialModel { commodity: Some(s), ..p },
        Field::CommodityDescr => PartialModel { commodity_descr: Some(s), ..p },
        Field::ConsigneeRefNumber => PartialModel { consignee_ref_number: Some(s), ..p },
        Field::OtherChargeAmount => PartialModel { other_charge_amount: Some(s), ..p },
        Field::FreightChargeAmount => PartialModel { freight_charge_amount: Some(s), ..p },
        Field::TotalAmount => PartialModel { total_amount: Some(s), ..p },
        Field::BolNumber => PartialModel { bol_number: Some(s), ..p },
        Field::User => PartialModel { user: Some(s), ..p },
        _ => p,
    }
}

pub open spec fn pm_set_count(p: PartialModel, f: Field, n: u32) -> PartialModel {
    match f {
        Field::Pieces => PartialModel { pieces: Some(n), ..p },
        Field::Weight => PartialModel { weight: Some(n), ..p },
        _ => p,
    }
}

pub open spec fn pm_set_flag(p: PartialModel, f: Field, b: bool) -> PartialModel {
    match f {
        Field::ReadyToBill => PartialModel { ready_to_bill: Some(b), ..p },
        Field::IsSummary => PartialModel { is_summary: Some(b), ..p },
        Field::IsCancelled => PartialModel { is_cancelled: Some(b), ..p },
        _ => p,
    }
}

pub open spec fn pm_set_num(p: PartialModel, f: Field, s: Seq<char>) -> PartialModel {
    match f {
        Field::Mileage => PartialModel { mileage: Some(s), ..p },
        _ => p,
    }
}

pub open spec fn pm_complete(p: PartialModel) -> bool {
    p.id is Some && p.order_type is Some && p.revenue_code is Some && p.customer is Some
        && p.invoice_number is Some && p.pieces is Some && p.weight is Some && p.bill_type is Some
        && p.ready_to_bill is Some && p.bill_date is Some && p.mileage is Some && p.worker is Some
        && p.commodity is Some && p.commodity_descr is Some && p.consignee_ref_number is Some
        && p.other_charge_amount is Some && p.freight_charge_amount is Some
        && p.total_amount is Some && p.is_summary is Some && p.is_cancelled is Some
        && p.bol_number is Some && p.user is Some
}

pub open spec fn pm_model(p: PartialModel) -> EventModel {
    EventModel {
        id: p.id->Some_0,
        order_type: p.order_type->Some_0,
        revenue_code: p.revenue_code->Some_0,
        customer: p.customer->Some_0,
        invoice_number: p.invoice_number->Some_0,
        pieces: p.pieces->Some_0,
        weight: p.weight->Some_0,
        bill_type: p.bill_type->Some_0,
        ready_to_bill: p.ready_to_bill->Some_0,
        bill_date: p.bill_date->Some_0,
        mileage: p.mileage->Some_0,
        worker: p.worker->Some_0,
        commodity: p.commodity->Some_0,
        commodity_descr: p.commodity_descr->Some_0,
        consignee_ref_number: p.consignee_ref_number->Some_0,
        other_charge_amount: p.other_charge_amount->Some_0,
        freight_charge_amount: p.freight_charge_amount->Some_0,
        total_amount: p.total_amount->Some_0,
        is_summary: p.is_summary->Some_0,
        is_cancelled: p.is_cancelled->Some_0,
        bol_number: p.bol_number->Some_0,
        user: p.user->Some_0,
    }
}

/// The first field of the wire order that is still missing.
pub open spec fn pm_first_missing(p: PartialModel) -> Field {
    if p.id is None {
        Field::Id
    } else if p.order_type is None {
        Field::OrderType
    } else if p.revenue_code is None {
        Field::RevenueCode
    } else if p.customer is None {
        Field::Customer
    } else if p.invoice_number is None {
        Field::InvoiceNumber
    } else if p.pieces is None {
        Field::Pieces
    } else if p.weight is None {
        Field::Weight
    } else if p.bill_type is None {
        Field::BillType
    } else if p.ready_to_bill is None {
        Field::ReadyToBill
    } else if p.bill_date is None {
        Field::BillDate
    } else if p.mileage is None {
        Field::Mileage
    } else if p.worker is None {
        Field::Worker
    } else if p.commodity is None {
        Field::Commodity
    } else if p.commodity_descr is None {
        Field::CommodityDescr
    } else if p.consignee_ref_number is None {
        Field::ConsigneeRefNumber
    } else if p.other_charge_amount is None {
        Field::OtherChargeAmount
    } else if p.freight_charge_amount is None {
        Field::FreightChargeAmount
    } else if p.total_amount is None {
        Field::TotalAmount
    } else if p.is_summary is None {
        Field::IsSummary
    } else if p.is_cancelled is None {
        Field::IsCancelled
    } else if p.bol_number is None {
        Field::BolNumber
    } else {
        Field::User
    }
}

// ---------------------------------------------------------------------------
// Member and object parsing
// ---------------------------------------------------------------------------

/// The value of one known field at position `i`.  A wrong leading character
/// is a type mismatch for that field; anything else broken is malformed
/// syntax.
pub open spec fn p_field(v: Seq<char>, i: int, f: Field, p: PartialModel) -> Result<
    (PartialModel, int),
    DecodeError,
> {
    match field_kind(f) {
        FieldKind::Text => {
            if 0 <= i < v.len() && v[i] == '"' {
                match p_string(v, i) {
                    Some((s, j)) => Ok((pm_set_text(p, f, s), j)),
                    None => Err(DecodeError::Malformed),
                }
            } else {
                Err(DecodeError::SchemaViolation(f))
            }
        },
        FieldKind::Count => {
            if 0 <= i < v.len() && is_digit(v[i]) {
                match p_num(v, i) {
                    Some((lex, j)) => match lex_u32(lex) {
                        Some(n) => Ok((pm_set_count(p, f, n), j)),
                        None => Err(DecodeError::SchemaViolation(f)),
                    },
                    None => Err(DecodeError::Malformed),
                }
            } else {
                Err(DecodeError::SchemaViolation(f))
            }
        },
        FieldKind::Flag => {
            if 0 <= i < v.len() && (v[i] == 't' || v[i] == 'f') {
                match p_flag(v, i) {
                    Some((b, j)) => Ok((pm_set_flag(p, f, b), j)),
                    None => Err(DecodeError::Malformed),
                }
            } else {
                Err(DecodeError::SchemaViolation(f))
            }
        },
        FieldKind::Number => {
            if 0 <= i < v.len() && is_digit(v[i]) {
                match p_num(v, i) {
                    Some((lex, j)) => Ok((pm_set_num(p, f, lex), j)),
                    None => Err(DecodeError::Malformed),
                }
            } else {
                Err(DecodeError::SchemaViolation(f))
            }
        },
    }
}

/// The members of the object from position `i` (just after `{` or a comma)
/// to the closing brace: the gathered fields and the position after the
/// brace.  `fuel` bounds the number of members left, so that the recursion
/// is visibly finite; one character per member is ample.
pub open spec fn p_members(v: Seq<char>, i: int, p: PartialModel, fuel: nat) -> Result<
    (PartialModel, int),
    DecodeError,
>
    decreases fuel,
{
    if fuel == 0 {
        Err(DecodeError::Malformed)
    } else {
        match p_string(v, i) {
            None => Err(DecodeError::Malformed),
            Some((k, j)) => {
                if !(0 <= j < v.len() && v[j] == ':') {
                    Err(DecodeError::Malformed)
                } else {
                    let step = match key_of(k) {
                        Some(f) => p_field(v, j + 1, f, p),
                        None => match p_skip(v, j + 1) {
                            Some(j2) => Ok((p, j2)),
                            None => Err(DecodeError::Malformed),
                        },
                    };
                    match step {
                        Err(e) => Err(e),
                        Ok((p2, j2)) => {
                            if 0 <= j2 < v.len() && v[j2] == ',' {
                                p_members(v, j2 + 1, p2, (fuel - 1) as nat)
                            } else if 0 <= j2 < v.len() && v[j2] == '}' {
                                Ok((p2, j2 + 1))
                            } else {
                                Err(DecodeError::Malformed)
                            }
                        },
                    }
                }
            },
        }
    }
}

/// Decoding, over characters: one object, nothing before or after it.
pub open spec fn spec_decode_chars(v: Seq<char>) -> Result<EventModel, DecodeError> {
    if !(v.len() >= 2 && v[0] == '{') {
        Err(DecodeError::Malformed)
    } else if v[1] == '}' {
        if v.len() == 2 {
            Err(DecodeError::SchemaViolation(pm_first_missing(pm_empty())))
        } else {
            Err(DecodeError::Malformed)
        }
    } else {
        match p_members(v, 1, pm_empty(), v.len()) {
            Err(e) => Err(e),
            Ok((p, j)) => {
                if j == v.len() {
                    if pm_complete(p) {
                        Ok(pm_model(p))
                    } else {
                        Err(DecodeError::SchemaViolation(pm_first_missing(p)))
                    }
                } else {
                    Err(DecodeError::Malformed)
                }
            },
        }
    }
}

/// Decoding, over bytes: UTF-8 first, then the object.
pub open spec fn spec_decode(b: Seq<u8>) -> Result<EventModel, DecodeError> {
    if valid_utf8(b) {
        spec_decode_chars(decode_utf8(b))
    } else {
        Err(DecodeError::Malformed)
    }
}

// ---------------------------------------------------------------------------
// Trusted conversions at the character/byte boundary
// ---------------------------------------------------------------------------

/// Relies on String::from_iter over chars and String::into_bytes: the UTF-8
/// bytes of exactly the given characters.
#[verifier::external_body]
fn chars_to_utf8(v: &Vec<char>) -> (r: Vec<u8>)
    ensures
        r@ == encode_utf8(v@),
{
    let s: String = v.iter().collect();
    s.into_bytes()
}

/// Relies on std::str::from_utf8: succeeds exactly on valid UTF-8 input and
/// returns the characters those bytes encode.
#[verifier::external_body]
fn utf8_to_string(b: &[u8]) -> (r: Option<String>)
    ensures
        match r {
            Some(s) => valid_utf8(b@) && encode_utf8(s@) == b@,
            None => !valid_utf8(b@),
        },
{
    match std::str::from_utf8(b) {
        Ok(s) => Some(s.to_string()),
        Err(_) => None,
    }
}

/// Relies on String::from_iter over chars: the string of exactly the given
/// characters.
#[verifier::external_body]
fn chars_to_string(v: &Vec<char>) -> (r: String)
    ensures
        r@ == v@,
{
    v.iter().collect()
}

/// Relies on char::from_u32: a character exactly for Unicode scalar values,
/// carrying that value.
#[verifier::external_body]
fn char_from_u32(u: u32) -> (r: Option<char>)
    ensures
        match r {
            Some(c) => is_scalar(u) && c as u32 == u,
            None => !is_scalar(u),
        },
{
    char::from_u32(u)
}

// ---------------------------------------------------------------------------
// Encoding
// ---------------------------------------------------------------------------

proof fn lemma_esc_snoc(t: Seq<char>, c: char)
    ensures
        esc(t.push(c)) == esc(t) + esc_char(c),
    decreases t.len(),
{
    if t.len() == 0 {
        assert(t.push(c).drop_first() =~= Seq::<char>::empty());
        assert(t.push(c)[0] == c);
        assert(esc(t) =~= Seq::<char>::empty());
        assert(esc(t.push(c)) == esc_char(c) + esc(Seq::<char>::empty()));
        assert(esc_char(c) + Seq::<char>::empty() =~= esc_char(c));
        assert(esc(t) + esc_char(c) =~= esc_char(c));
    } else {
        assert(t.push(c).drop_first() =~= t.drop_first().push(c));
        lemma_esc_snoc(t.drop_first(), c);
        assert(esc(t.push(c)) =~= esc(t) + esc_char(c));
    }
}

fn hex_char_x(d: u32) -> (c: char)
    requires
        d < 16,
    ensures
        c == hex_char(d as int),
{
    match d {
        0 => '0',
        1 => '1',
        2 => '2',
        3 => '3',
        4 => '4',
        5 => '5',
        6 => '6',
        7 => '7',
        8 => '8',
        9 => '9',
        10 => 'a',
        11 => 'b',
        12 => 'c',
        13 => 'd',
        14 => 'e',
        _ => 'f',
    }
}

/// The characters of one text field as a JSON string, escaping on the way.
fn jstr_chars(s: &str) -> (r: Vec<char>)
    ensures
        r@ == jstr(s@),
{
    let n = s.unicode_len();
    let mut out: Vec<char> = Vec::new();
    out.push('"');
    let mut i: usize = 0;
    while i < n
        invariant
            i <= n,
            n == s@.len(),
            out@ == seq!['"'] + esc(s@.take(i as int)),
        decreases n - i,
    {
        let c = s.get_char(i);
        proof {
            lemma_esc_snoc(s@.take(i as int), c);
            assert(s@.take(i as int + 1) =~= s@.take(i as int).push(s@[i as int]));
        }
        if c == '"' {
            out.push('\\');
            out.push('"');
        } else if c == '\\' {
            out.push('\\');
            out.push('\\');
        } else if (c as u32) < 0x20 {
            out.push('\\');
            out.push('u');
            out.push('0');
            out.push('0');
            let u = c as u32;
            out.push(hex_char_x(u / 16));
            out.push(hex_char_x(u % 16));
        } else {
            out.push(c);
        }
        i = i + 1;
        proof {
            assert(out@ =~= seq!['"'] + esc(s@.take(i as int)));
        }
    }
    out.push('"');
    proof {
        assert(s@.take(n as int) =~= s@);
        assert(out@ =~= jstr(s@));
    }
    out
}

/// The decimal digits of a non-negative integer.
fn juint_chars(n: u32) -> (r: Vec<char>)
    ensures
        r@ == juint(n as nat),
    decreases n,
{
    if n < 10 {
        let mut out: Vec<char> = Vec::new();
        out.push(hex_char_x(n));
        proof {
            assert(out@ =~= juint(n as nat));
        }
        out
    } else {
        let mut out = juint_chars(n / 10);
        out.push(hex_char_x(n % 10));
        out
    }
}

/// The characters of a string, unescaped (keys and the mileage lexeme).
fn plain_chars(s: &str) -> (r: Vec<char>)
    ensures
        r@ == s@,
{
    let n = s.unicode_len();
    let mut out: Vec<char> = Vec::new();
    let mut i: usize = 0;
    while i < n
        invariant
            i <= n,
            n == s@.len(),
            out@ == s@.take(i as int),
        decreases n - i,
    {
        out.push(s.get_char(i));
        i = i + 1;
        proof {
            assert(out@ =~= s@.take(i as int));
        }
    }
    proof {
        assert(s@.take(n as int) =~= s@);
    }
    out
}

/// The field at position `k` of the wire order.
fn field_at(k: usize) -> (f: Field)
    requires
        k < 22,
    ensures
        f == field_order()[k as int],
{
    match k {
        0 => Field::Id,
        1 => Field::OrderType,
        2 => Field::RevenueCode,
        3 => Field::Customer,
        4 => Field::InvoiceNumber,
        5 => Field::Pieces,
        6 => Field::Weight,
        7 => Field::BillType,
        8 => Field::ReadyToBill,
        9 => Field::BillDate,
        10 => Field::Mileage,
        11 => Field::Worker,
        12 => Field::Commodity,
        13 => Field::CommodityDescr,
        14 => Field::ConsigneeRefNumber,
        15 => Field::OtherChargeAmount,
        16 => Field::FreightChargeAmount,
        17 => Field::TotalAmount,
        18 => Field::IsSummary,
        19 => Field::IsCancelled,
        20 => Field::BolNumber,
        _ => Field::User,
    }
}

/// The key of a field, as a string literal.
fn key_str(f: Field) -> (r: &'static str)
    ensures
        r@ == key_seq(f),
{
    match f {
        Field::Id => "id",
        Field::OrderType => "order_type",
        Field::RevenueCode => "revenue_code",
        Field::Customer => "customer",
        Field::InvoiceNumber => "invoice_number",
        Field::Pieces => "pieces",
        Field::Weight => "weight",
        Field::BillType => "bill_type",
        Field::ReadyToBill => "ready_to_bill",
        Field::BillDate => "bill_date",
        Field::Mileage => "mileage",
        Field::Worker => "worker",
        Field::Commodity => "commodity",
        Field::CommodityDescr => "commodity_descr",
        Field::ConsigneeRefNumber => "consignee_ref_number",
        Field::OtherChargeAmount => "other_charge_amount",
        Field::FreightChargeAmount => "freight_charge_amount",
        Field::TotalAmount => "total_amount",
        Field::IsSummary => "is_summary",
        Field::IsCancelled => "is_cancelled",
        Field::BolNumber => "bol_number",
        Field::User => "user",
    }
}

impl BillingEvent {
    /// The characters of one field's wire value.
    fn field_value_chars(&self, f: Field) -> (r: Vec<char>)
        requires
            f == Field::Mileage ==> self@.wf(),
        ensures
            r@ == field_chars(self@, f),
    {
        proof {
            reveal_strlit("true");
            reveal_strlit("false");
            assert("true"@ =~= true_chars());
            assert("false"@ =~= false_chars());
        }
        match f {
            Field::Id => jstr_chars(self.id.as_str()),
            Field::OrderType => jstr_chars(self.order_type.as_str()),
            Field::RevenueCode => jstr_chars(self.revenue_code.as_str()),
            Field::Customer => jstr_chars(self.customer.as_str()),
            Field::InvoiceNumber => jstr_chars(self.invoice_number.as_str()),
            Field::Pieces => juint_chars(self.pieces),
            Field::Weight => juint_chars(self.weight),
            Field::BillType => jstr_chars(self.bill_type.as_str()),
            Field::ReadyToBill => if self.ready_to_bill {
                plain_chars("true")
            } else {
                plain_chars("false")
            },
            Field::BillDate => jstr_chars(self.bill_date.as_str()),
            Field::Mileage => plain_chars(self.mileage.as_str()),
            Field::Worker => jstr_chars(self.worker.as_str()),
            Field::Commodity => jstr_chars(self.commodity.as_str()),
            Field::CommodityDescr => jstr_chars(self.commodity_descr.as_str()),
            Field::ConsigneeRefNumber => jstr_chars(self.consignee_ref_number.as_str()),
            Field::OtherChargeAmount => jstr_chars(self.other_charge_amount.as_str()),
            Field::FreightChargeAmount => jstr_chars(self.freight_charge_amount.as_str()),
            Field::TotalAmount => jstr_chars(self.total_amount.as_str()),
            Field::IsSummary => if self.is_summary {
                plain_chars("true")
            } else {
                plain_chars("false")
            },
            Field::IsCancelled => if self.is_cancelled {
                plain_chars("true")
            } else {
                plain_chars("false")
            },
            Field::BolNumber => jstr_chars(self.bol_number.as_str()),
            Field::User => jstr_chars(self.user.as_str()),
        }
    }

    /// The members from position `k` of the wire order, through the closing
    /// brace.
    fn members_vec(&self, k: usize) -> (r: Vec<char>)
        requires
            k < 22,
            self@.wf(),
        ensures
            r@ == members_from(self@, k as int),
        decreases 22 - k,
    {
        let f = field_at(k);
        let mut out: Vec<char> = Vec::new();
        let mut key = jstr_chars(key_str(f));
        out.append(&mut key);
        out.push(':');
        let mut val = self.field_value_chars(f);
        out.append(&mut val);
        if k == 21 {
            out.push('}');
        } else {
            out.push(',');
            let mut rest = self.members_vec(k + 1);
            out.append(&mut rest);
        }
        proof {
            assert(out@ =~= members_from(self@, k as int));
        }
        out
    }

    /// Encodes the event as its canonical JSON bytes.  This fails exactly
    /// when the mileage string is not a decimal — the one field written as a
    /// bare JSON number, hence the one field that can be unrepresentable.
    pub fn encode(&self) -> (r: Result<Vec<u8>, EncodeError>)
        ensures
            match r {
                Ok(b) => self@.wf() && b@ == spec_encode(self@),
                Err(e) => !self@.wf() && e == EncodeError::Unrepresentable(Field::Mileage),
            },
    {
        if !crate::event::dec_check(self.mileage.as_str()) {
            return Err(EncodeError::Unrepresentable(Field::Mileage));
        }
        let mut out: Vec<char> = Vec::new();
        out.push('{');
        let mut body = self.members_vec(0);
        out.append(&mut body);
        proof {
            assert(out@ =~= enc_chars(self@));
        }
        Ok(chars_to_utf8(&out))
    }
}

// ---------------------------------------------------------------------------
// Decoding: executable parsers, each the mirror of its mathematical one
// ---------------------------------------------------------------------------

fn is_digit_x(c: char) -> (r: bool)
    ensures
        r == is_digit(c),
{
    matches!(c, '0'|'1'|'2'|'3'|'4'|'5'|'6'|'7'|'8'|'9')
}

fn is_num_char_x(c: char) -> (r: bool)
    ensures
        r == is_num_char(c),
{
    matches!(c, '0'|'1'|'2'|'3'|'4'|'5'|'6'|'7'|'8'|'9'|'-'|'+'|'.'|'e'|'E')
}

fn hex_of(c: char) -> (r: Option<u32>)
    ensures
        r == hex_val(c),
{
    match c {
        '0' => Some(0),
        '1' => Some(1),
        '2' => Some(2),
        '3' => Some(3),
        '4' => Some(4),
        '5' => Some(5),
        '6' => Some(6),
        '7' => Some(7),
        '8' => Some(8),
        '9' => Some(9),
        'a' | 'A' => Some(10),
        'b' | 'B' => Some(11),
        'c' | 'C' => Some(12),
        'd' | 'D' => Some(13),
        'e' | 'E' => Some(14),
        'f' | 'F' => Some(15),
        _ => None,
    }
}

/// Character-for-character equality of a gathered key and a literal.
fn eq_str(v: &Vec<char>, s: &str) -> (r: bool)
    ensures
        r == (v@ == s@),
{
    let n = s.unicode_len();
    if v.len() != n {
        proof {
            if v@ == s@ {
                assert(v@.len() == s@.len());
            }
        }
        return false;
    }
    let mut i: usize = 0;
    while i < n
        invariant
            i <= n,
            n == s@.len() == v@.len(),
            forall|k: int| 0 <= k < i ==> v@[k] == s@[k],
        decreases n - i,
    {
        if v[i] != s.get_char(i) {
            proof {
                if v@ == s@ {
                    assert(v@[i as int] == s@[i as int]);
                }
            }
            return false;
        }
        i = i + 1;
    }
    proof {
        assert(v@ =~= s@);
    }
    true
}

/// Whether the fixed pattern stands at position `i`.
fn x_match(s: &str, i: usize, pat: &str) -> (r: bool)
    ensures
        r == matches_at(s@, i as int, pat@),
{
    let n = s.unicode_len();
    let m = pat.unicode_len();
    if m > n || i > n - m {
        return false;
    }
    let mut k: usize = 0;
    while k < m
        invariant
            k <= m,
            n == s@.len(),
            m == pat@.len(),
            i + m <= n,
            forall|q: int| 0 <= q < k ==> s@[i + q] == pat@[q],
        decreases m - k,
    {
        if s.get_char(i + k) != pat.get_char(k) {
            proof {
                if matches_at(s@, i as int, pat@) {
                    assert(s@.subrange(i as int, i as int + m as int)[k as int] == pat@[k as int]);
                }
            }
            return false;
        }
        k = k + 1;
    }
    proof {
        assert(s@.subrange(i as int, i as int + m as int) =~= pat@);
    }
    true
}

/// A JSON string at position `i`: the unescaped content and the position
/// after the closing quote.
fn x_string(s: &str, i: usize) -> (r: Option<(Vec<char>, usize)>)
    ensures
        match r {
            Some(p) => p_string(s@, i as int) == Some((p.0@, p.1 as int)) && i < p.1 <= s@.len(),
            None => p_string(s@, i as int) is None,
        },
{
    let n = s.unicode_len();
    if i >= n || s.get_char(i) != '"' {
        return None;
    }
    let mut acc: Vec<char> = Vec::new();
    let mut k = i + 1;
    while k < n
        invariant
            i + 1 <= k <= n,
            n == s@.len(),
            s@[i as int] == '"',
            0 <= i < n,
            p_str_body(s@, k as int, acc@) == p_str_body(s@, i as int + 1, Seq::empty()),
        decreases n - k,
    {
        let c = s.get_char(k);
        if c == '"' {
            return Some((acc, k + 1));
        }
        if c == '\\' {
            if k + 1 >= n {
                return None;
            }
            let e = s.get_char(k + 1);
            match e {
                '"' | '\\' | '/' => {
                    acc.push(e);
                    k = k + 2;
                },
                'n' => {
                    acc.push('\n');
                    k = k + 2;
                },
                't' => {
                    acc.push('\t');
                    k = k + 2;
                },
                'r' => {
                    acc.push('\r');
                    k = k + 2;
                },
                'b' => {
                    acc.push('\u{8}');
                    k = k + 2;
                },
                'f' => {
                    acc.push('\u{c}');
                    k = k + 2;
                },
                'u' => {
                    if n - k < 6 {
                        return None;
                    }
                    let h1 = hex_of(s.get_char(k + 2));
                    let h2 = hex_of(s.get_char(k + 3));
                    let h3 = hex_of(s.get_char(k + 4));
                    let h4 = hex_of(s.get_char(k + 5));
                    match (h1, h2, h3, h4) {
                        (Some(a), Some(b), Some(cc), Some(d)) => {
                            let code = a * 0x1000 + b * 0x100 + cc * 0x10 + d;
                            if 0xD800 <= code && code <= 0xDFFF {
                                return None;
                            }
                            match char_from_u32(code) {
                                Some(ch) => {
                                    proof {
                                        vstd::utf8::char_u32_cast(ch, code);
                                    }
                                    acc.push(ch);
                                    k = k + 6;
                                },
                                None => {
                                    proof {
                                        assert(is_scalar(code));
                                        assert(false);
                                    }
                                    return None;
                                },
                            }
                        },
                        _ => {
                            return None;
                        },
                    }
                },
                _ => {
                    return None;
                },
            }
        } else if (c as u32) < 0x20 {
            return None;
        } else {
            acc.push(c);
            k = k + 1;
        }
    }
    None
}

/// A JSON number lexeme at position `i`.
fn x_num(s: &str, i: usize) -> (r: Option<(Vec<char>, usize)>)
    ensures
        match r {
            Some(p) => p_num(s@, i as int) == Some((p.0@, p.1 as int)) && i < p.1 <= s@.len(),
            None => p_num(s@, i as int) is None,
        },
{
    let n = s.unicode_len();
    if i >= n {
        return None;
    }
    let c0 = s.get_char(i);
    if !(is_digit_x(c0) || c0 == '-') {
        return None;
    }
    let mut acc: Vec<char> = Vec::new();
    acc.push(c0);
    let mut k = i + 1;
    while k < n
        invariant
            i + 1 <= k <= n,
            n == s@.len(),
            is_digit(s@[i as int]) || s@[i as int] == '-',
            p_num_body(s@, k as int, acc@) == p_num_body(s@, i as int, Seq::empty()),
        decreases n - k,
    {
        let c = s.get_char(k);
        if !is_num_char_x(c) {
            proof {
                assert(!is_num_char(s@[k as int]));
                assert(p_num_body(s@, k as int, acc@) == (acc@, k as int));
                assert(p_num(s@, i as int) == Some((acc@, k as int)));
            }
            return Some((acc, k));
        }
        acc.push(c);
        k = k + 1;
    }
    Some((acc, k))
}

/// Skips one balanced container starting at position `i`.
fn x_bal(s: &str, i: usize) -> (r: Option<usize>)
    ensures
        match r {
            Some(j) => p_bal(s@, i as int, 0, false, false) == Some(j as int) && i < j <= s@.len(),
            None => p_bal(s@, i as int, 0, false, false) is None,
        },
{
    let n = s.unicode_len();
    if i >= n {
        return None;
    }
    let mut depth: usize = 0;
    let mut instr: bool = false;
    let mut escn: bool = false;
    let mut k = i;
    while k < n
        invariant
            i <= k <= n,
            n == s@.len(),
            depth <= k - i,
            instr || !escn,
            p_bal(s@, k as int, depth as nat, instr, escn) == p_bal(s@, i as int, 0, false, false),
        decreases n - k,
    {
        let c = s.get_char(k);
        if instr {
            if escn {
                escn = false;
            } else if c == '\\' {
                escn = true;
            } else if c == '"' {
                instr = false;
            }
        } else if c == '{' || c == '[' {
            depth = depth + 1;
        } else if c == '}' || c == ']' {
            if depth == 1 {
                return Some(k + 1);
            } else if depth == 0 {
                return None;
            } else {
                depth = depth - 1;
            }
        } else if c == '"' {
            instr = true;
        }
        k = k + 1;
    }
    None
}

/// Skips one JSON value of any type at position `i`.
fn x_skip(s: &str, i: usize) -> (r: Option<usize>)
    ensures
        match r {
            Some(j) => p_skip(s@, i as int) == Some(j as int) && i < j <= s@.len(),
            None => p_skip(s@, i as int) is None,
        },
{
    proof {
        reveal_strlit("true");
        reveal_strlit("false");
        reveal_strlit("null");
        assert("true"@ =~= true_chars());
        assert("false"@ =~= false_chars());
        assert("null"@ =~= seq!['n', 'u', 'l', 'l']);
    }
    let n = s.unicode_len();
    if i >= n {
        return None;
    }
    let c = s.get_char(i);
    if c == '"' {
        match x_string(s, i) {
            Some((w, j)) => Some(j),
            None => None,
        }
    } else if is_digit_x(c) || c == '-' {
        match x_num(s, i) {
            Some((w, j)) => Some(j),
            None => None,
        }
    } else if c == 't' {
        if x_match(s, i, "true") {
            Some(i + 4)
        } else {
            None
        }
    } else if c == 'f' {
        if x_match(s, i, "false") {
            Some(i + 5)
        } else {
            None
        }
    } else if c == 'n' {
        if x_match(s, i, "null") {
            Some(i + 4)
        } else {
            None
        }
    } else if c == '{' || c == '[' {
        x_bal(s, i)
    } else {
        None
    }
}

/// A u32 from an all-digit lexeme.
fn x_u32(lex: &Vec<char>) -> (r: Option<u32>)
    ensures
        r == lex_u32(lex@),
{
    if lex.len() == 0 {
        return None;
    }
    let mut acc: u32 = 0;
    let mut k: usize = 0;
    while k < lex.len()
        invariant
            k <= lex@.len(),
            u32_scan(lex@, k as int, acc as int) == u32_scan(lex@, 0, 0),
        decreases lex@.len() - k,
    {
        let c = lex[k];
        let d: u32 = match c {
            '0' => 0,
            '1' => 1,
            '2' => 2,
            '3' => 3,
            '4' => 4,
            '5' => 5,
            '6' => 6,
            '7' => 7,
            '8' => 8,
            '9' => 9,
            _ => {
                return None;
            },
        };
        let a2: u64 = acc as u64 * 10 + d as u64;
        if a2 > u32::MAX as u64 {
            return None;
        }
        acc = a2 as u32;
        k = k + 1;
    }
    Some(acc)
}

/// The field a gathered key names, if any.
fn key_field(k: &Vec<char>) -> (r: Option<Field>)
    ensures
        r == key_of(k@),
{
    if eq_str(k, "id") {
        Some(Field::Id)
    } else if eq_str(k, "order_type") {
        Some(Field::OrderType)
    } else if eq_str(k, "revenue_code") {
        Some(Field::RevenueCode)
    } else if eq_str(k, "customer") {
        Some(Field::Customer)
    } else if eq_str(k, "invoice_number") {
        Some(Field::InvoiceNumber)
    } else if eq_str(k, "pieces") {
        Some(Field::Pieces)
    } else if eq_str(k, "weight") {
        Some(Field::Weight)
    } else if eq_str(k, "bill_type") {
        Some(Field::BillType)
    } else if eq_str(k, "ready_to_bill") {
        Some(Field::ReadyToBill)
    } else if eq_str(k, "bill_date") {
        Some(Field::BillDate)
    } else if eq_str(k, "mileage") {
        Some(Field::Mileage)
    } else if eq_str(k, "worker") {
        Some(Field::Worker)
    } else if eq_str(k, "commodity") {
        Some(Field::Commodity)
    } else if eq_str(k, "commodity_descr") {
        Some(Field::CommodityDescr)
    } else if eq_str(k, "consignee_ref_number") {
        Some(Field::ConsigneeRefNumber)
    } else if eq_str(k, "other_charge_amount") {
        Some(Field::OtherChargeAmount)
    } else if eq_str(k, "freight_charge_amount") {
        Some(Field::FreightChargeAmount)
    } else if eq_str(k, "total_amount") {
        Some(Field::TotalAmount)
    } else if eq_str(k, "is_summary") {
        Some(Field::IsSummary)
    } else if eq_str(k, "is_cancelled") {
        Some(Field::IsCancelled)
    } else if eq_str(k, "bol_number") {
        Some(Field::BolNumber)
    } else if eq_str(k, "user") {
        Some(Field::User)
    } else {
        None
    }
}

fn kind_of(f: Field) -> (r: FieldKind)
    ensures
        r == field_kind(f),
{
    match f {
        Field::Pieces | Field::Weight => FieldKind::Count,
        Field::ReadyToBill | Field::IsSummary | Field::IsCancelled => FieldKind::Flag,
        Field::Mileage => FieldKind::Number,
        _ => FieldKind::Text,
    }
}

/// The fields gathered so far while the members are read.
struct PartialEvent {
    id: Option<String>,
    order_type: Option<String>,
    revenue_code: Option<String>,
    customer: Option<String>,
    invoice_number: Option<String>,
    pieces: Option<u32>,
    weight: Option<u32>,
    bill_type: Option<String>,
    ready_to_bill: Option<bool>,
    bill_date: Option<String>,
    mileage: Option<String>,
    worker: Option<String>,
    commodity: Option<String>,
    commodity_descr: Option<String>,
    consignee_ref_number: Option<String>,
    other_charge_amount: Option<String>,
    freight_charge_amount: Option<String>,
    total_amount: Option<String>,
    is_summary: Option<bool>,
    is_cancelled: Option<bool>,
    bol_number: Option<String>,
    user: Option<String>,
}

pub open spec fn os(o: Option<String>) -> Option<Seq<char>> {
    match o {
        Some(s) => Some(s@),
        None => None,
    }
}

impl PartialEvent {
    spec fn pm(&self) -> PartialModel {
        PartialModel {
            id: os(self.id),
            order_type: os(self.order_type),
            revenue_code: os(self.revenue_code),
            customer: os(self.customer),
            invoice_number: os(self.invoice_number),
            pieces: self.pieces,
            weight: self.weight,
            bill_type: os(self.bill_type),
            ready_to_bill: self.ready_to_bill,
            bill_date: os(self.bill_date),
            mileage: os(self.mileage),
            worker: os(self.worker),
            commodity: os(self.commodity),
            commodity_descr: os(self.commodity_descr),
            consignee_ref_number: os(self.consignee_ref_number),
            other_charge_amount: os(self.other_charge_amount),
            freight_charge_amount: os(self.freight_charge_amount),
            total_amount: os(self.total_amount),
            is_summary: self.is_summary,
            is_cancelled: self.is_cancelled,
            bol_number: os(self.bol_number),
            user: os(self.user),
        }
    }

    fn new() -> (r: PartialEvent)
        ensures
            r.pm() == pm_empty(),
    {
        let r = PartialEvent {
            id: None,
            order_type: None,
            revenue_code: None,
            customer: None,
            invoice_number: None,
            pieces: None,
            weight: None,
            bill_type: None,
            ready_to_bill: None,
            bill_date: None,
            mileage: None,
            worker: None,
            commodity: None,
            commodity_descr: None,
            consignee_ref_number: None,
            other_charge_amount: None,
            freight_charge_amount: None,
            total_amount: None,
            is_summary: None,
            is_cancelled: None,
            bol_number: None,
            user: None,
        };
        proof {
            assert(r.pm() =~= pm_empty());
        }
        r
    }

    fn set_text(&mut self, f: Field, w: Vec<char>)
        ensures
            final(self).pm() == pm_set_text(old(self).pm(), f, w@),
    {
        let s = chars_to_string(&w);
        match f {
            Field::Id => self.id = Some(s),
            Field::OrderType => self.order_type = Some(s),
            Field::RevenueCode => self.revenue_code = Some(s),
            Field::Customer => self.customer = Some(s),
            Field::InvoiceNumber => self.invoice_number = Some(s),
            Field::BillType => self.bill_type = Some(s),
            Field::BillDate => self.bill_date = Some(s),
            Field::Worker => self.worker = Some(s),
            Field::Commodity => self.commodity = Some(s),
            Field::CommodityDescr => self.commodity_descr = Some(s),
            Field::ConsigneeRefNumber => self.consignee_ref_number = Some(s),
            Field::OtherChargeAmount => self.other_charge_amount = Some(s),
            Field::FreightChargeAmount => self.freight_charge_amount = Some(s),
            Field::TotalAmount => self.total_amount = Some(s),
            Field::BolNumber => self.bol_number = Some(s),
            Field::User => self.user = Some(s),
            _ => {},
        }
        proof {
            assert(self.pm() =~= pm_set_text(old(self).pm(), f, w@));
        }
    }

    fn set_count(&mut self, f: Field, n: u32)
        ensures
            final(self).pm() == pm_set_count(old(self).pm(), f, n),
    {
        match f {
            Field::Pieces => self.pieces = Some(n),
            Field::Weight => self.weight = Some(n),
            _ => {},
        }
        proof {
            assert(self.pm() =~= pm_set_count(old(self).pm(), f, n));
        }
    }

    fn set_flag(&mut self, f: Field, b: bool)
        ensures
            final(self).pm() == pm_set_flag(old(self).pm(), f, b),
    {
        match f {
            Field::ReadyToBill => self.ready_to_bill = Some(b),
            Field::IsSummary => self.is_summary = Some(b),
            Field::IsCancelled => self.is_cancelled = Some(b),
            _ => {},
        }
        proof {
            assert(self.pm() =~= pm_set_flag(old(self).pm(), f, b));
        }
    }

    fn set_num(&mut self, f: Field, w: Vec<char>)
        ensures
            final(self).pm() == pm_set_num(old(self).pm(), f, w@),
    {
        let s = chars_to_string(&w);
        match f {
            Field::Mileage => self.mileage = Some(s),
            _ => {},
        }
        proof {
            assert(self.pm() =~= pm_set_num(old(self).pm(), f, w@));
        }
    }

    fn first_missing(&self) -> (r: Field)
        ensures
            r == pm_first_missing(self.pm()),
    {
        if self.id.is_none() {
            Field::Id
        } else if self.order_type.is_none() {
            Field::OrderType
        } else if self.revenue_code.is_none() {
            Field::RevenueCode
        } else if self.customer.is_none() {
            Field::Customer
        } else if self.invoice_number.is_none() {
            Field::InvoiceNumber
        } else if self.pieces.is_none() {
            Field::Pieces
        } else if self.weight.is_none() {
            Field::Weight
        } else if self.bill_type.is_none() {
            Field::BillType
        } else if self.ready_to_bill.is_none() {
            Field::ReadyToBill
        } else if self.bill_date.is_none() {
            Field::BillDate
        } else if self.mileage.is_none() {
            Field::Mileage
        } else if self.worker.is_none() {
            Field::Worker
        } else if self.commodity.is_none() {
            Field::Commodity
        } else if self.commodity_descr.is_none() {
            Field::CommodityDescr
        } else if self.consignee_ref_number.is_none() {
            Field::ConsigneeRefNumber
        } else if self.other_charge_amount.is_none() {
            Field::OtherChargeAmount
        } else if self.freight_charge_amount.is_none() {
            Field::FreightChargeAmount
        } else if self.total_amount.is_none() {
            Field::TotalAmount
        } else if self.is_summary.is_none() {
            Field::IsSummary
        } else if self.is_cancelled.is_none() {
            Field::IsCancelled
        } else if self.bol_number.is_none() {
            Field::BolNumber
        } else {
            Field::User
        }
    }
}

/// The value of one known field at position `i`, stored into the gathered
/// fields; the position after the value.
fn x_field(s: &str, i: usize, f: Field, pe: &mut PartialEvent) -> (r: Result<usize, DecodeError>)
    ensures
        match r {
            Ok(j2) => p_field(s@, i as int, f, old(pe).pm()) == Ok::<(PartialModel, int), DecodeError>(
                (final(pe).pm(), j2 as int),
            ) && i < j2 <= s@.len(),
            Err(e) => p_field(s@, i as int, f, old(pe).pm()) == Err::<(PartialModel, int), DecodeError>(e)
                && final(pe).pm() == old(pe).pm(),
        },
{
    proof {
        reveal_strlit("true");
        reveal_strlit("false");
        assert("true"@ =~= true_chars());
        assert("false"@ =~= false_chars());
    }
    let n = s.unicode_len();
    match kind_of(f) {
        FieldKind::Text => {
            if i < n && s.get_char(i) == '"' {
                match x_string(s, i) {
                    Some((w, jj)) => {
                        pe.set_text(f, w);
                        Ok(jj)
                    },
                    None => Err(DecodeError::Malformed),
                }
            } else {
                Err(DecodeError::SchemaViolation(f))
            }
        },
        FieldKind::Count => {
            if i < n && is_digit_x(s.get_char(i)) {
                match x_num(s, i) {
                    Some((w, jj)) => {
                        match x_u32(&w) {
                            Some(c32) => {
                                pe.set_count(f, c32);
                                Ok(jj)
                            },
                            None => Err(DecodeError::SchemaViolation(f)),
                        }
                    },
                    None => Err(DecodeError::Malformed),
                }
            } else {
                Err(DecodeError::SchemaViolation(f))
            }
        },
        FieldKind::Flag => {
            let ok = if i < n {
                let cv = s.get_char(i);
                cv == 't' || cv == 'f'
            } else {
                false
            };
            if ok {
                if x_match(s, i, "true") {
                    pe.set_flag(f, true);
                    Ok(i + 4)
                } else if x_match(s, i, "false") {
                    pe.set_flag(f, false);
                    Ok(i + 5)
                } else {
                    Err(DecodeError::Malformed)
                }
            } else {
                Err(DecodeError::SchemaViolation(f))
            }
        },
        FieldKind::Number => {
            if i < n && is_digit_x(s.get_char(i)) {
                match x_num(s, i) {
                    Some((w, jj)) => {
                        pe.set_num(f, w);
                        Ok(jj)
                    },
                    None => Err(DecodeError::Malformed),
                }
            } else {
                Err(DecodeError::SchemaViolation(f))
            }
        },
    }
}

// ---------------------------------------------------------------------------
// Law: decoding inverts encoding
// ---------------------------------------------------------------------------

/// The gathered fields after the first `k` members of the wire order.
pub open spec fn pm_upto(m: EventModel, k: int) -> PartialModel {
    PartialModel {
        id: if k > 0 { Some(m.id) } else { None },
        order_type: if k > 1 { Some(m.order_type) } else { None },
        revenue_code: if k > 2 { Some(m.revenue_code) } else { None },
        customer: if k > 3 { Some(m.customer) } else { None },
        invoice_number: if k > 4 { Some(m.invoice_number) } else { None },
        pieces: if k > 5 { Some(m.pieces) } else { None },
        weight: if k > 6 { Some(m.weight) } else { None },
        bill_type: if k > 7 { Some(m.bill_type) } else { None },
        ready_to_bill: if k > 8 { Some(m.ready_to_bill) } else { None },
        bill_date: if k > 9 { Some(m.bill_date) } else { None },
        mileage: if k > 10 { Some(m.mileage) } else { None },
        worker: if k > 11 { Some(m.worker) } else { None },
        commodity: if k > 12 { Some(m.commodity) } else { None },
        commodity_descr: if k > 13 { Some(m.commodity_descr) } else { None },
        consignee_ref_number: if k > 14 { Some(m.consignee_ref_number) } else { None },
        other_charge_amount: if k > 15 { Some(m.other_charge_amount) } else { None },
        freight_charge_amount: if k > 16 { Some(m.freight_charge_amount) } else { None },
        total_amount: if k > 17 { Some(m.total_amount) } else { None },
        is_summary: if k > 18 { Some(m.is_summary) } else { None },
        is_cancelled: if k > 19 { Some(m.is_cancelled) } else { None },
        bol_number: if k > 20 { Some(m.bol_number) } else { None },
        user: if k > 21 { Some(m.user) } else { None },
    }
}

proof fn lemma_matches_index(v: Seq<char>, i: int, pat: Seq<char>, k: int)
    requires
        matches_at(v, i, pat),
        0 <= k < pat.len(),
    ensures
        v[i + k] == pat[k],
{
    assert(v.subrange(i, i + pat.len() as int)[k] == pat[k]);
}

proof fn lemma_matches_split(v: Seq<char>, i: int, a: Seq<char>, b: Seq<char>)
    requires
        matches_at(v, i, a + b),
    ensures
        matches_at(v, i, a),
        matches_at(v, i + a.len(), b),
{
    let ab = a + b;
    assert forall|k: int| 0 <= k < a.len() implies v[i + k] == a[k] by {
        lemma_matches_index(v, i, ab, k);
    }
    assert forall|k: int| 0 <= k < b.len() implies v[i + a.len() + k] == b[k] by {
        lemma_matches_index(v, i, ab, a.len() + k);
    }
    assert(v.subrange(i, i + a.len() as int) =~= a);
    assert(v.subrange(i + a.len(), i + a.len() + b.len()) =~= b);
}

proof fn lemma_hex_inv(d: u32)
    requires
        d < 16,
    ensures
        hex_val(hex_char(d as int)) == Some(d),
{
}

/// Reading a JSON string body inverts escaping.
proof fn lemma_str_body_inverts(v: Seq<char>, i: int, s: Seq<char>, acc: Seq<char>)
    requires
        0 <= i,
        matches_at(v, i, esc(s) + seq!['"']),
    ensures
        p_str_body(v, i, acc) == Some((acc + s, i + esc(s).len() + 1)),
    decreases s.len(),
{
    if s.len() == 0 {
        assert(esc(s) + seq!['"'] =~= seq!['"']);
        lemma_matches_index(v, i, seq!['"'], 0);
        assert(acc + s =~= acc);
    } else {
        let c = s[0];
        let rest = s.drop_first();
        let e = esc_char(c);
        assert(esc(s) == e + esc(rest));
        assert((e + esc(rest)) + seq!['"'] =~= e + (esc(rest) + seq!['"']));
        lemma_matches_split(v, i, e, esc(rest) + seq!['"']);
        if c == '"' || c == '\\' {
            lemma_matches_index(v, i, e, 0);
            lemma_matches_index(v, i, e, 1);
            lemma_str_body_inverts(v, i + 2, rest, acc.push(c));
            assert(acc.push(c) + rest =~= acc + s);
        } else if (c as u32) < 0x20 {
            let u = c as u32;
            lemma_matches_index(v, i, e, 0);
            lemma_matches_index(v, i, e, 1);
            lemma_matches_index(v, i, e, 2);
            lemma_matches_index(v, i, e, 3);
            lemma_matches_index(v, i, e, 4);
            lemma_matches_index(v, i, e, 5);
            lemma_hex_inv(0);
            lemma_hex_inv(u / 16);
            lemma_hex_inv(u % 16);
            assert(u_escape(v, i + 2) == Some((u as char))) by {
                assert(0 * 0x1000 + 0 * 0x100 + (u / 16) * 0x10 + u % 16 == u);
            }
            vstd::utf8::char_u32_cast(c, u);
            lemma_str_body_inverts(v, i + 6, rest, acc.push(c));
            assert(acc.push(c) + rest =~= acc + s);
        } else {
            lemma_matches_index(v, i, e, 0);
            lemma_str_body_inverts(v, i + 1, rest, acc.push(c));
            assert(acc.push(c) + rest =~= acc + s);
        }
    }
}

/// Reading a JSON string inverts printing one.
proof fn lemma_string_inverts(v: Seq<char>, i: int, s: Seq<char>)
    requires
        0 <= i,
        matches_at(v, i, jstr(s)),
    ensures
        p_string(v, i) == Some((s, i + jstr(s).len())),
{
    assert(jstr(s) =~= seq!['"'] + (esc(s) + seq!['"']));
    lemma_matches_split(v, i, seq!['"'], esc(s) + seq!['"']);
    lemma_matches_index(v, i, seq!['"'], 0);
    lemma_str_body_inverts(v, i + 1, s, Seq::empty());
    assert(Seq::empty() + s =~= s);
}

/// The number scanner consumes exactly a lexeme that ends at a non-number
/// character.
proof fn lemma_num_body_inverts(v: Seq<char>, i: int, lex: Seq<char>, acc: Seq<char>)
    requires
        0 <= i,
        matches_at(v, i, lex),
        forall|k: int| 0 <= k < lex.len() ==> is_num_char(#[trigger] lex[k]),
        i + lex.len() == v.len() || !is_num_char(v[i + lex.len()]),
    ensures
        p_num_body(v, i, acc) == (acc + lex, i + lex.len()),
    decreases lex.len(),
{
    if lex.len() == 0 {
        assert(acc + lex =~= acc);
    } else {
        lemma_matches_index(v, i, lex, 0);
        assert(lex =~= seq![lex[0]] + lex.drop_first());
        lemma_matches_split(v, i, seq![lex[0]], lex.drop_first());
        lemma_num_body_inverts(v, i + 1, lex.drop_first(), acc.push(lex[0]));
        assert(acc.push(lex[0]) + lex.drop_first() =~= acc + lex);
    }
}

proof fn lemma_num_inverts(v: Seq<char>, i: int, lex: Seq<char>)
    requires
        0 <= i,
        matches_at(v, i, lex),
        lex.len() > 0,
        is_digit(lex[0]),
        forall|k: int| 0 <= k < lex.len() ==> is_num_char(#[trigger] lex[k]),
        i + lex.len() == v.len() || !is_num_char(v[i + lex.len()]),
    ensures
        p_num(v, i) == Some((lex, i + lex.len())),
{
    lemma_matches_index(v, i, lex, 0);
    lemma_num_body_inverts(v, i, lex, Seq::empty());
    assert(Seq::empty() + lex =~= lex);
}

/// Digits of a printed integer.
proof fn lemma_juint_digits(n: nat)
    ensures
        juint(n).len() >= 1,
        forall|k: int| 0 <= k < juint(n).len() ==> is_digit(#[trigger] juint(n)[k]),
    decreases n,
{
    if n >= 10 {
        lemma_juint_digits(n / 10);
    }
}

proof fn lemma_u32_scan_snoc(lex: Seq<char>, c: char, i: int, acc: int)
    requires
        0 <= i <= lex.len(),
        0 <= acc <= u32::MAX,
        is_digit(c),
    ensures
        u32_scan(lex.push(c), i, acc) == (match u32_scan(lex, i, acc) {
            Some(a) => {
                if a * 10 + digit_val(c) <= u32::MAX {
                    Some(((a * 10 + digit_val(c)) as u32))
                } else {
                    None::<u32>
                }
            },
            None => None::<u32>,
        }),
    decreases lex.len() - i,
{
    let l2 = lex.push(c);
    if i == lex.len() {
        assert(l2[i] == c);
        let a2 = acc * 10 + digit_val(c);
        if a2 <= u32::MAX {
            assert(u32_scan(l2, i + 1, a2) == Some(a2 as u32));
        }
        assert(u32_scan(lex, i, acc) == Some(acc as u32));
    } else {
        assert(l2[i] == lex[i]);
        if is_digit(lex[i]) {
            let a2 = acc * 10 + digit_val(lex[i]);
            if a2 <= u32::MAX {
                lemma_u32_scan_snoc(lex, c, i + 1, a2);
            }
        }
    }
}

/// Reading a printed integer gives the integer back.
proof fn lemma_juint_u32(n: u32)
    ensures
        lex_u32(juint(n as nat)) == Some(n),
    decreases n,
{
    lemma_juint_digits(n as nat);
    lemma_juint_u32_scan(n);
}

proof fn lemma_juint_u32_scan(n: u32)
    ensures
        u32_scan(juint(n as nat), 0, 0) == Some(n),
    decreases n,
{
    if n < 10 {
        assert(u32_scan(juint(n as nat), 1, digit_val(digit_char(n as int))) == Some(n));
    } else {
        lemma_juint_u32_scan(n / 10);
        lemma_juint_digits((n / 10) as nat);
        lemma_u32_scan_snoc(juint((n / 10) as nat), digit_char((n as int) % 10), 0, 0);
        assert((n / 10) * 10 + n % 10 == n);
    }
}

/// A decimal string is one non-empty run of number characters starting with
/// a digit.
proof fn lemma_dec_scan_chars(s: Seq<char>, i: int, dot: bool, m: int, f: nat)
    requires
        0 <= i,
        dec_scan(s, i, dot, m, f) is Some,
    ensures
        forall|k: int| i <= k < s.len() ==> is_num_char(#[trigger] s[k]),
    decreases s.len() - i,
{
    if i < s.len() {
        if is_digit(s[i]) {
            lemma_dec_scan_chars(s, i + 1, dot, m * 10 + digit_val(s[i]), if dot {
                f + 1
            } else {
                0nat
            });
        } else if s[i] == '.' && !dot {
            lemma_dec_scan_chars(s, i + 1, true, m, 0);
        }
    }
}

proof fn lemma_decimal_lex(s: Seq<char>)
    requires
        parse_decimal(s) is Some,
    ensures
        s.len() > 0,
        is_digit(s[0]),
        forall|k: int| 0 <= k < s.len() ==> is_num_char(#[trigger] s[k]),
{
    lemma_dec_scan_chars(s, 1, false, digit_val(s[0]), 0);
}

proof fn lemma_key_of(f: Field)
    ensures
        key_of(key_seq(f)) == Some(f),
{
    reveal_strlit("id");
    reveal_strlit("order_type");
    reveal_strlit("revenue_code");
    reveal_strlit("customer");
    reveal_strlit("invoice_number");
    reveal_strlit("pieces");
    reveal_strlit("weight");
    reveal_strlit("bill_type");
    reveal_strlit("ready_to_bill");
    reveal_strlit("bill_date");
    reveal_strlit("mileage");
    reveal_strlit("worker");
    reveal_strlit("commodity");
    reveal_strlit("commodity_descr");
    reveal_strlit("consignee_ref_number");
    reveal_strlit("other_charge_amount");
    reveal_strlit("freight_charge_amount");
    reveal_strlit("total_amount");
    reveal_strlit("is_summary");
    reveal_strlit("is_cancelled");
    reveal_strlit("bol_number");
    reveal_strlit("user");
    assert("id"@.len() == 2);
    assert("order_type"@.len() == 10);
    assert("revenue_code"@.len() == 12);
    assert("customer"@.len() == 8);
    assert("invoice_number"@.len() == 14);
    assert("pieces"@.len() == 6);
    assert("weight"@.len() == 6);
    assert("bill_type"@.len() == 9);
    assert("ready_to_bill"@.len() == 13);
    assert("bill_date"@.len() == 9);
    assert("mileage"@.len() == 7);
    assert("worker"@.len() == 6);
    assert("commodity"@.len() == 9);
    assert("commodity_descr"@.len() == 15);
    assert("consignee_ref_number"@.len() == 20);
    assert("other_charge_amount"@.len() == 19);
    assert("freight_charge_amount"@.len() == 21);
    assert("total_amount"@.len() == 12);
    assert("is_summary"@.len() == 10);
    assert("is_cancelled"@.len() == 12);
    assert("bol_number"@.len() == 10);
    assert("user"@.len() == 4);
    assert("pieces"@[0] == 'p');
    assert("weight"@[0] == 'w');
    assert("worker"@[0] == 'w');
    assert("weight"@[1] == 'e');
    assert("worker"@[1] == 'o');
    assert("bill_type"@[5] == 't');
    assert("bill_date"@[5] == 'd');
    assert("bill_type"@[0] == 'b');
    assert("bill_date"@[0] == 'b');
    assert("commodity"@[0] == 'c');
    assert("order_type"@[0] == 'o');
    assert("is_summary"@[0] == 'i');
    assert("bol_number"@[0] == 'b');
    assert("revenue_code"@[0] == 'r');
    assert("total_amount"@[0] == 't');
    assert("is_cancelled"@[0] == 'i');
    match f {
        Field::Id => assert(key_of(key_seq(f)) == Some(f)),
        Field::OrderType => assert(key_of(key_seq(f)) == Some(f)),
        Field::RevenueCode => assert(key_of(key_seq(f)) == Some(f)),
        Field::Customer => assert(key_of(key_seq(f)) == Some(f)),
        Field::InvoiceNumber => assert(key_of(key_seq(f)) == Some(f)),
        Field::Pieces => assert(key_of(key_seq(f)) == Some(f)),
        Field::Weight => assert(key_of(key_seq(f)) == Some(f)),
        Field::BillType => assert(key_of(key_seq(f)) == Some(f)),
        Field::ReadyToBill => assert(key_of(key_seq(f)) == Some(f)),
        Field::BillDate => assert(key_of(key_seq(f)) == Some(f)),
        Field::Mileage => assert(key_of(key_seq(f)) == Some(f)),
        Field::Worker => assert(key_of(key_seq(f)) == Some(f)),
        Field::Commodity => assert(key_of(key_seq(f)) == Some(f)),
        Field::CommodityDescr => assert(key_of(key_seq(f)) == Some(f)),
        Field::ConsigneeRefNumber => assert(key_of(key_seq(f)) == Some(f)),
        Field::OtherChargeAmount => assert(key_of(key_seq(f)) == Some(f)),
        Field::FreightChargeAmount => assert(key_of(key_seq(f)) == Some(f)),
        Field::TotalAmount => assert(key_of(key_seq(f)) == Some(f)),
        Field::IsSummary => assert(key_of(key_seq(f)) == Some(f)),
        Field::IsCancelled => assert(key_of(key_seq(f)) == Some(f)),
        Field::BolNumber => assert(key_of(key_seq(f)) == Some(f)),
        Field::User => assert(key_of(key_seq(f)) == Some(f)),
    }
}

/// Lower bound on the tail of the printed object: at least one character per
/// member, so the whole input is always fuel enough.
proof fn lemma_members_len(m: EventModel, k: int)
    requires
        0 <= k < 22,
    ensures
        members_from(m, k).len() >= 22 - k,
    decreases 22 - k,
{
    if k < 21 {
        lemma_members_len(m, k + 1);
    }
}

/// Reading the members of a printed event, from member `k` on, fills in
/// exactly the remaining fields and stops after the closing brace.
proof fn lemma_members_invert(v: Seq<char>, i: int, m: EventModel, k: int, fuel: nat)
    requires
        0 <= k < 22,
        0 <= i,
        m.wf(),
        matches_at(v, i, members_from(m, k)),
        fuel >= 22 - k,
    ensures
        p_members(v, i, pm_upto(m, k), fuel) == Ok::<(PartialModel, int), DecodeError>(
            (pm_upto(m, 22), i + members_from(m, k).len()),
        ),
    decreases 22 - k,
{
    let f = field_order()[k];
    let key = key_seq(f);
    let fc = field_chars(m, f);
    let tail: Seq<char> = if k == 21 {
        seq!['}']
    } else {
        seq![','] + members_from(m, k + 1)
    };
    assert(members_from(m, k) == member_chars(m, f) + tail);
    assert(member_chars(m, f) + tail =~= jstr(key) + (seq![':'] + (fc + tail)));
    lemma_matches_split(v, i, jstr(key), seq![':'] + (fc + tail));
    let j = i + jstr(key).len();
    lemma_matches_split(v, j, seq![':'], fc + tail);
    lemma_matches_index(v, j, seq![':'], 0);
    let jv = j + 1;
    lemma_matches_split(v, jv, fc, tail);
    let j2 = jv + fc.len();
    lemma_matches_index(v, j2, tail, 0);
    lemma_string_inverts(v, i, key);
    lemma_key_of(f);
    let p = pm_upto(m, k);
    let p2 = pm_upto(m, k + 1);
    match field_kind(f) {
        FieldKind::Text => {
            let tv = model_text(m, f);
            lemma_matches_index(v, jv, fc, 0);
            assert(fc[0] == '"');
            lemma_string_inverts(v, jv, tv);
            assert(p_field(v, jv, f, p) == Ok::<(PartialModel, int), DecodeError>(
                (pm_set_text(p, f, tv), j2),
            ));
            assert(pm_set_text(p, f, tv) =~= p2);
        },
        FieldKind::Count => {
            let cnt = model_count(m, f);
            lemma_juint_digits(cnt as nat);
            lemma_num_inverts(v, jv, fc);
            lemma_juint_u32(cnt);
            assert(p_field(v, jv, f, p) == Ok::<(PartialModel, int), DecodeError>(
                (pm_set_count(p, f, cnt), j2),
            ));
            assert(pm_set_count(p, f, cnt) =~= p2);
        },
        FieldKind::Flag => {
            let b = model_flag(m, f);
            if b {
                assert(p_flag(v, jv) == Some((true, jv + 4)));
            } else {
                if matches_at(v, jv, true_chars()) {
                    lemma_matches_index(v, jv, true_chars(), 0);
                    lemma_matches_index(v, jv, false_chars(), 0);
                    assert(false);
                }
                assert(p_flag(v, jv) == Some((false, jv + 5)));
            }
            assert(p_field(v, jv, f, p) == Ok::<(PartialModel, int), DecodeError>(
                (pm_set_flag(p, f, b), j2),
            ));
            assert(pm_set_flag(p, f, b) =~= p2);
        },
        FieldKind::Number => {
            assert(f == Field::Mileage);
            assert(fc == m.mileage);
            lemma_decimal_lex(m.mileage);
            lemma_num_inverts(v, jv, fc);
            assert(p_field(v, jv, f, p) == Ok::<(PartialModel, int), DecodeError>(
                (pm_set_num(p, f, fc), j2),
            ));
            assert(pm_set_num(p, f, fc) =~= p2);
        },
    }
    if k == 21 {
        assert(v[j2] == '}');
        assert(p_members(v, i, p, fuel) == Ok::<(PartialModel, int), DecodeError>((p2, j2 + 1)));
        assert(p2 =~= pm_upto(m, 22));
    } else {
        assert(v[j2] == ',');
        assert(tail =~= seq![','] + members_from(m, k + 1));
        lemma_matches_split(v, j2, seq![','], members_from(m, k + 1));
        lemma_members_invert(v, j2 + 1, m, k + 1, (fuel - 1) as nat);
    }
}

/// Law, over characters: reading back a printed event gives the event.
proof fn lemma_decode_chars_encoded(m: EventModel)
    requires
        m.wf(),
    ensures
        spec_decode_chars(enc_chars(m)) == Ok::<EventModel, DecodeError>(m),
{
    let v = enc_chars(m);
    let mf = members_from(m, 0);
    lemma_members_len(m, 0);
    assert(v.len() == 1 + mf.len());
    assert(v[0] == '{');
    assert(matches_at(v, 1, mf)) by {
        assert(v.subrange(1, 1 + mf.len() as int) =~= mf);
    }
    let f0 = field_order()[0];
    assert(mf[0] == '"') by {
        assert(member_chars(m, f0)[0] == jstr(key_seq(f0))[0]);
        assert(jstr(key_seq(f0))[0] == '"');
    }
    assert(v[1] == '"');
    assert(pm_upto(m, 0) =~= pm_empty());
    lemma_members_invert(v, 1, m, 0, v.len() as nat);
    assert(p_members(v, 1, pm_empty(), v.len() as nat) == Ok::<(PartialModel, int), DecodeError>(
        (pm_upto(m, 22), v.len() as int),
    ));
    assert(pm_complete(pm_upto(m, 22)));
    assert(pm_model(pm_upto(m, 22)) =~= m);
}

/// Law: decoding inverts encoding — for every well-formed event model, the
/// canonical encoding decodes back to exactly that event.
pub proof fn lemma_round_trip(m: EventModel)
    requires
        m.wf(),
    ensures
        spec_decode(spec_encode(m)) == Ok::<EventModel, DecodeError>(m),
{
    vstd::utf8::encode_utf8_valid_utf8(enc_chars(m));
    vstd::utf8::encode_utf8_decode_utf8(enc_chars(m));
    lemma_decode_chars_encoded(m);
}

/// Decodes one wire record into an event, exactly as `spec_decode` reads it.
pub fn decode(bytes: &[u8]) -> (r: Result<BillingEvent, DecodeError>)
    ensures
        match r {
            Ok(e) => spec_decode(bytes@) == Ok::<EventModel, DecodeError>(e@),
            Err(err) => spec_decode(bytes@) == Err::<EventModel, DecodeError>(err),
        },
{
    proof {
        reveal_strlit("true");
        reveal_strlit("false");
        assert("true"@ =~= true_chars());
        assert("false"@ =~= false_chars());
    }
    let sopt = utf8_to_string(bytes);
    let so = match sopt {
        Some(so) => so,
        None => {
            return Err(DecodeError::Malformed);
        },
    };
    proof {
        vstd::utf8::encode_utf8_decode_utf8(so@);
    }
    let st = so.as_str();
    let n = st.unicode_len();
    if n < 2 {
        return Err(DecodeError::Malformed);
    }
    if st.get_char(0) != '{' {
        return Err(DecodeError::Malformed);
    }
    if st.get_char(1) == '}' {
        if n == 2 {
            return Err(DecodeError::SchemaViolation(Field::Id));
        }
        return Err(DecodeError::Malformed);
    }
    let mut pe = PartialEvent::new();
    let mut i: usize = 1;
    let ghost mut fuel: nat = st@.len() as nat;
    loop
        invariant
            1 <= i <= n,
            n == st@.len(),
            st@ == decode_utf8(bytes@),
            valid_utf8(bytes@),
            fuel >= n - i + 1,
            p_members(st@, i as int, pe.pm(), fuel) == p_members(st@, 1, pm_empty(), st@.len()),
            spec_decode_chars(st@) == spec_decode(bytes@),
            st@.len() >= 2 && st@[0] == '{' && st@[1] != '}',
        decreases n - i,
    {
        let kres = x_string(st, i);
        let (key, j) = match kres {
            Some(p) => p,
            None => {
                return Err(DecodeError::Malformed);
            },
        };
        if j >= n {
            return Err(DecodeError::Malformed);
        }
        if st.get_char(j) != ':' {
            return Err(DecodeError::Malformed);
        }
        let jv = j + 1;
        let j2: usize;
        match key_field(&key) {
            Some(f) => {
                match x_field(st, jv, f, &mut pe) {
                    Ok(jj) => {
                        j2 = jj;
                    },
                    Err(e) => {
                        return Err(e);
                    },
                }
            },
            None => {
                match x_skip(st, jv) {
                    Some(jj) => {
                        j2 = jj;
                    },
                    None => {
                        return Err(DecodeError::Malformed);
                    },
                }
            },
        }
        if j2 < n && st.get_char(j2) == ',' {
            proof {
                fuel = (fuel - 1) as nat;
            }
            i = j2 + 1;
        } else if j2 < n && st.get_char(j2) == '}' {
            if j2 + 1 != n {
                return Err(DecodeError::Malformed);
            }
            let ghost gp = pe.pm();
            if pe.id.is_some() && pe.order_type.is_some() && pe.revenue_code.is_some()
                && pe.customer.is_some() && pe.invoice_number.is_some() && pe.pieces.is_some()
                && pe.weight.is_some() && pe.bill_type.is_some() && pe.ready_to_bill.is_some()
                && pe.bill_date.is_some() && pe.mileage.is_some() && pe.worker.is_some()
                && pe.commodity.is_some() && pe.commodity_descr.is_some()
                && pe.consignee_ref_number.is_some() && pe.other_charge_amount.is_some()
                && pe.freight_charge_amount.is_some() && pe.total_amount.is_some()
                && pe.is_summary.is_some() && pe.is_cancelled.is_some() && pe.bol_number.is_some()
                && pe.user.is_some() {
                let ev = BillingEvent {
                    id: pe.id.unwrap(),
                    order_type: pe.order_type.unwrap(),
                    revenue_code: pe.revenue_code.unwrap(),
                    customer: pe.customer.unwrap(),
                    invoice_number: pe.invoice_number.unwrap(),
                    pieces: pe.pieces.unwrap(),
                    weight: pe.weight.unwrap(),
                    bill_type: pe.bill_type.unwrap(),
                    ready_to_bill: pe.ready_to_bill.unwrap(),
                    bill_date: pe.bill_date.unwrap(),
                    mileage: pe.mileage.unwrap(),
                    worker: pe.worker.unwrap(),
                    commodity: pe.commodity.unwrap(),
                    commodity_descr: pe.commodity_descr.unwrap(),
                    consignee_ref_number: pe.consignee_ref_number.unwrap(),
                    other_charge_amount: pe.other_charge_amount.unwrap(),
                    freight_charge_amount: pe.freight_charge_amount.unwrap(),
                    total_amount: pe.total_amount.unwrap(),
                    is_summary: pe.is_summary.unwrap(),
                    is_cancelled: pe.is_cancelled.unwrap(),
                    bol_number: pe.bol_number.unwrap(),
                    user: pe.user.unwrap(),
                };
                proof {
                    assert(pm_complete(gp));
                    assert(ev@ =~= pm_model(gp));
                }
                return Ok(ev);
            } else {
                return Err(DecodeError::SchemaViolation(pe.first_missing()));
            }
        } else {
            return Err(DecodeError::Malformed);
        }
    }
}

} // verus!
