//! The record model and its binary layout.
//!
//! Three values travel as bytes: the product details, the stored barcode
//! entry, and the instruction payload. For each of them this module gives the
//! encoding as a function from the value to bytes, the decoding as a function
//! from bytes to the value, the executable encoder and decoder, and the proofs
//! that the two directions are inverse to each other.

use vstd::prelude::*;
use crate::error::BarcodeError;
use crate::identity::{parse_identity, Identity};
use crate::wire::{
    fits, lemma_le_u64_of_parse, lemma_parse_le_u64, lemma_parse_text_bytes,
    lemma_parse_text_consumes, lemma_text_bytes_of_parse, le_u64, parse_text, parse_u64, put_text, put_u64, take_text,
    take_u64, text_bytes, text_fits,
};

verus! {

/// Whether `bits`, read as an IEEE 754 binary64 number, is a NaN: all exponent
/// bits set and a fraction that is not zero, whatever the sign.
pub open spec fn is_nan(bits: u64) -> bool {
    bits % 0x8000_0000_0000_0000 > 0x7ff0_0000_0000_0000
}

/// Name, icon and price of a product.
#[derive(Debug, Clone, PartialEq)]
pub struct ProductDetails {
    pub name: String,
    pub icon: String,
    /// The price, a binary64 floating-point number, held as its bit pattern.
    pub price: u64,
}

/// The product details as mathematical values.
#[verifier::ext_equal]
pub struct ProductDetailsView {
    pub name: Seq<char>,
    pub icon: Seq<char>,
    pub price: u64,
}

impl View for ProductDetails {
    type V = ProductDetailsView;

    open spec fn view(&self) -> ProductDetailsView {
        ProductDetailsView { name: self.name@, icon: self.icon@, price: self.price }
    }
}

impl ProductDetailsView {
    /// Details can be written when both texts fit their length prefix and the
    /// price is a number.
    pub open spec fn wf(self) -> bool {
        &&& text_fits(self.name)
        &&& text_fits(self.icon)
        &&& !is_nan(self.price)
    }

    /// The bytes of the details: name, icon, then the eight bytes of the price.
    pub open spec fn encoding(self) -> Seq<u8> {
        text_bytes(self.name) + text_bytes(self.icon) + le_u64(self.price)
    }
}

/// Reads product details from the front of `b`.
pub open spec fn parse_details(b: Seq<u8>) -> Option<(ProductDetailsView, Seq<u8>)> {
    match parse_text(b) {
        Some((name, b1)) => match parse_text(b1) {
            Some((icon, b2)) => match parse_u64(b2) {
                Some((price, b3)) => if is_nan(price) {
                    None
                } else {
                    Some((ProductDetailsView { name, icon, price }, b3))
                },
                None => None,
            },
            None => None,
        },
        None => None,
    }
}

/// The product details that `b` encodes, if it encodes any: `b` must hold the
/// details and nothing more.
pub open spec fn decode_details(b: Seq<u8>) -> Option<ProductDetailsView> {
    match parse_details(b) {
        Some((v, rest)) => if rest.len() == 0 {
            Some(v)
        } else {
            None
        },
        None => None,
    }
}

/// Parsing encoded details gives them back and leaves the tail.
pub proof fn lemma_parse_details(v: ProductDetailsView, tail: Seq<u8>)
    requires
        v.wf(),
    ensures
        parse_details(v.encoding() + tail) == Some((v, tail)),
{
    let b2 = le_u64(v.price) + tail;
    let b1 = text_bytes(v.icon) + b2;
    assert(v.encoding() + tail =~= text_bytes(v.name) + b1);
    lemma_parse_text_bytes(v.name, b1);
    lemma_parse_text_bytes(v.icon, b2);
    lemma_parse_le_u64(v.price, tail);
}

/// Whatever `parse_details` accepts starts with the encoding of the details
/// read, and those details can be written.
pub proof fn lemma_details_of_parse(b: Seq<u8>, v: ProductDetailsView, rest: Seq<u8>)
    requires
        parse_details(b) == Some((v, rest)),
    ensures
        v.wf(),
        b == v.encoding() + rest,
{
    let (name, b1) = parse_text(b)->0;
    let (icon, b2) = parse_text(b1)->0;
    let (price, b3) = parse_u64(b2)->0;
    lemma_text_bytes_of_parse(b, name, b1);
    lemma_text_bytes_of_parse(b1, icon, b2);
    lemma_le_u64_of_parse(b2, price, b3);
    assert(b =~= v.encoding() + rest);
}

impl ProductDetails {
    /// Whether the details can be written.
    pub fn is_valid(&self) -> (r: bool)
        ensures
            r == self@.wf(),
    {
        fits(self.name.as_str()) && fits(self.icon.as_str()) && self.price % 0x8000_0000_0000_0000 <= 0x7ff0_0000_0000_0000
    }

    /// Appends the encoding of the details.
    pub fn encode_into(&self, out: &mut Vec<u8>)
        requires
            self@.wf(),
        ensures
            final(out)@ == old(out)@ + self@.encoding(),
    {
        put_text(out, self.name.as_str());
        put_text(out, self.icon.as_str());
        put_u64(out, self.price);
        assert(out@ =~= old(out)@ + self@.encoding());
    }

    /// The encoding of the details.
    pub fn encode(&self) -> (r: Vec<u8>)
        requires
            self@.wf(),
        ensures
            r@ == self@.encoding(),
    {
        let mut out: Vec<u8> = Vec::new();
        self.encode_into(&mut out);
        assert(out@ =~= self@.encoding());
        out
    }

    /// Reads product details at `pos`. The result holds the details and the
    /// position behind them, or nothing where `parse_details` fails.
    pub fn take(input: &[u8], pos: usize) -> (r: Option<(ProductDetails, usize)>)
        requires
            pos <= input.len(),
        ensures
            match r {
                Some((v, next)) => pos <= next <= input.len() && parse_details(
                    input@.skip(pos as int),
                ) == Some((v@, input@.skip(next as int))),
                None => parse_details(input@.skip(pos as int)) is None,
            },
    {
        let (name, after_name) = take_text(input, pos)?;
        let (icon, after_icon) = take_text(input, after_name)?;
        let (price, next) = take_u64(input, after_icon)?;
        if price % 0x8000_0000_0000_0000 > 0x7ff0_0000_0000_0000 {
            return None;
        }
        Some((ProductDetails { name, icon, price }, next))
    }

    /// Decodes product details from `input`, which must hold them and nothing
    /// more.
    pub fn decode(input: &[u8]) -> (r: Result<ProductDetails, BarcodeError>)
        ensures
            match r {
                Ok(v) => decode_details(input@) == Some(v@),
                Err(e) => e == BarcodeError::MalformedData && decode_details(input@) is None,
            },
    {
        assert(input@.skip(0) =~= input@);
        match ProductDetails::take(input, 0) {
            Some((v, next)) => {
                if next == input.len() {
                    Ok(v)
                } else {
                    Err(BarcodeError::MalformedData)
                }
            },
            None => Err(BarcodeError::MalformedData),
        }
    }
}

/// The stored record: who owns the entry, what the product is, and its
/// barcode.
#[derive(Debug, Clone, PartialEq)]
pub struct BarcodeEntry {
    /// The identity of the account that funded and signed the creation.
    pub owner: Identity,
    pub product_details: ProductDetails,
    pub barcode: String,
}

/// The stored record as mathematical values.
#[verifier::ext_equal]
pub struct BarcodeEntryView {
    pub owner: Seq<u8>,
    pub product_details: ProductDetailsView,
    pub barcode: Seq<char>,
}

impl View for BarcodeEntry {
    type V = BarcodeEntryView;

    open spec fn view(&self) -> BarcodeEntryView {
        BarcodeEntryView {
            owner: self.owner@,
            product_details: self.product_details@,
            barcode: self.barcode@,
        }
    }
}

impl BarcodeEntryView {
    /// An entry can be written when its owner has thirty-two bytes, its
    /// details can be written and its barcode fits its length prefix.
    pub open spec fn wf(self) -> bool {
        &&& self.owner.len() == 32
        &&& self.product_details.wf()
        &&& text_fits(self.barcode)
    }

    /// The bytes of the entry: owner, details, then the barcode.
    pub open spec fn encoding(self) -> Seq<u8> {
        self.owner + self.product_details.encoding() + text_bytes(self.barcode)
    }
}

/// Reads an entry from the front of `b`.
pub open spec fn parse_entry(b: Seq<u8>) -> Option<(BarcodeEntryView, Seq<u8>)> {
    match parse_identity(b) {
        Some((owner, b1)) => match parse_details(b1) {
            Some((product_details, b2)) => match parse_text(b2) {
                Some((barcode, b3)) => Some(
                    (BarcodeEntryView { owner, product_details, barcode }, b3),
                ),
                None => None,
            },
            None => None,
        },
        None => None,
    }
}

/// The entry that `b` encodes, if it encodes any: `b` must hold the entry and
/// nothing more.
pub open spec fn decode_entry(b: Seq<u8>) -> Option<BarcodeEntryView> {
    match parse_entry(b) {
        Some((v, rest)) => if rest.len() == 0 {
            Some(v)
        } else {
            None
        },
        None => None,
    }
}

/// Parsing an encoded entry gives it back and leaves the tail.
pub proof fn lemma_parse_entry(v: BarcodeEntryView, tail: Seq<u8>)
    requires
        v.wf(),
    ensures
        parse_entry(v.encoding() + tail) == Some((v, tail)),
{
    let b2 = text_bytes(v.barcode) + tail;
    let b1 = v.product_details.encoding() + b2;
    let b = v.encoding() + tail;
    assert(b =~= v.owner + b1);
    assert(b.take(32) =~= v.owner);
    assert(b.skip(32) =~= b1);
    lemma_parse_details(v.product_details, b2);
    lemma_parse_text_bytes(v.barcode, tail);
}

/// Whatever `parse_entry` accepts starts with the encoding of the entry read,
/// and that entry can be written.
pub proof fn lemma_entry_of_parse(b: Seq<u8>, v: BarcodeEntryView, rest: Seq<u8>)
    requires
        parse_entry(b) == Some((v, rest)),
    ensures
        v.wf(),
        b == v.encoding() + rest,
{
    let (owner, b1) = parse_identity(b)->0;
    let (details, b2) = parse_details(b1)->0;
    let (barcode, b3) = parse_text(b2)->0;
    lemma_details_of_parse(b1, details, b2);
    lemma_text_bytes_of_parse(b2, barcode, b3);
    assert(b =~= owner + b1);
    assert(b =~= v.encoding() + rest);
}

impl BarcodeEntry {
    /// Whether the entry can be written.
    pub fn is_valid(&self) -> (r: bool)
        ensures
            r == self@.wf(),
    {
        self.product_details.is_valid() && fits(self.barcode.as_str())
    }

    /// Appends the encoding of the entry.
    pub fn encode_into(&self, out: &mut Vec<u8>)
        requires
            self@.wf(),
        ensures
            final(out)@ == old(out)@ + self@.encoding(),
    {
        self.owner.encode_into(out);
        self.product_details.encode_into(out);
        put_text(out, self.barcode.as_str());
        assert(out@ =~= old(out)@ + self@.encoding());
    }

    /// The encoding of the entry.
    pub fn encode(&self) -> (r: Vec<u8>)
        requires
            self@.wf(),
        ensures
            r@ == self@.encoding(),
    {
        let mut out: Vec<u8> = Vec::new();
        self.encode_into(&mut out);
        assert(out@ =~= self@.encoding());
        out
    }

    /// Decodes an entry from `input`, which must hold it and nothing more.
    pub fn decode(input: &[u8]) -> (r: Result<BarcodeEntry, BarcodeError>)
        ensures
            match r {
                Ok(v) => decode_entry(input@) == Some(v@),
                Err(e) => e == BarcodeError::MalformedData && decode_entry(input@) is None,
            },
    {
        assert(input@.skip(0) =~= input@);
        let (owner, after_owner) = match Identity::take(input, 0) {
            Some(p) => p,
            None => { return Err(BarcodeError::MalformedData); },
        };
        let (product_details, after_details) = match ProductDetails::take(input, after_owner) {
            Some(p) => p,
            None => { return Err(BarcodeError::MalformedData); },
        };
        let (barcode, next) = match take_text(input, after_details) {
            Some(p) => p,
            None => { return Err(BarcodeError::MalformedData); },
        };
        if next == input.len() {
            Ok(BarcodeEntry { owner, product_details, barcode })
        } else {
            Err(BarcodeError::MalformedData)
        }
    }
}

/// The instruction payload: one case for each operation of the program.
#[derive(Debug, Clone, PartialEq)]
pub enum BarcodeInstruction {
    /// Creates a barcode entry. The accounts that come with it are, in this
    /// order: the funding account, which signs and becomes the owner of the
    /// entry; the account that will hold the entry; the system program.
    CreateBarcodeItem { details: ProductDetails, barcode: String },
}

/// The instruction payload as mathematical values.
#[verifier::ext_equal]
pub enum BarcodeInstructionView {
    CreateBarcodeItem { details: ProductDetailsView, barcode: Seq<char> },
}

impl View for BarcodeInstruction {
    type V = BarcodeInstructionView;

    open spec fn view(&self) -> BarcodeInstructionView {
        match self {
            BarcodeInstruction::CreateBarcodeItem { details, barcode } => {
                BarcodeInstructionView::CreateBarcodeItem { details: details@, barcode: barcode@ }
            },
        }
    }
}

/// The tag byte of `CreateBarcodeItem`.
pub const CREATE_BARCODE_ITEM: u8 = 0;

impl BarcodeInstructionView {
    /// A payload can be written when its fields can.
    pub open spec fn wf(self) -> bool {
        match self {
            BarcodeInstructionView::CreateBarcodeItem { details, barcode } => details.wf()
                && text_fits(barcode),
        }
    }

    /// The bytes of the payload: the tag of its case, then its fields in
    /// order.
    pub open spec fn encoding(self) -> Seq<u8> {
        match self {
            BarcodeInstructionView::CreateBarcodeItem { details, barcode } => seq![
                CREATE_BARCODE_ITEM,
            ] + details.encoding() + text_bytes(barcode),
        }
    }
}

/// Reads a payload from the front of `b`.
pub open spec fn parse_instruction(b: Seq<u8>) -> Option<(BarcodeInstructionView, Seq<u8>)> {
    if b.len() >= 1 && b[0] == CREATE_BARCODE_ITEM {
        match parse_details(b.skip(1)) {
            Some((details, b2)) => match parse_text(b2) {
                Some((barcode, b3)) => Some(
                    (BarcodeInstructionView::CreateBarcodeItem { details, barcode }, b3),
                ),
                None => None,
            },
            None => None,
        }
    } else {
        None
    }
}

/// The payload that `b` encodes, if it encodes any: `b` must hold the payload
/// and nothing more.
pub open spec fn decode_instruction(b: Seq<u8>) -> Option<BarcodeInstructionView> {
    match parse_instruction(b) {
        Some((v, rest)) => if rest.len() == 0 {
            Some(v)
        } else {
            None
        },
        None => None,
    }
}

/// Parsing an encoded payload gives it back and leaves the tail.
pub proof fn lemma_parse_instruction(v: BarcodeInstructionView, tail: Seq<u8>)
    requires
        v.wf(),
    ensures
        parse_instruction(v.encoding() + tail) == Some((v, tail)),
{
    match v {
        BarcodeInstructionView::CreateBarcodeItem { details, barcode } => {
            let b2 = text_bytes(barcode) + tail;
            let b1 = details.encoding() + b2;
            let b = v.encoding() + tail;
            assert(b =~= seq![CREATE_BARCODE_ITEM] + b1);
            assert(b.skip(1) =~= b1);
            lemma_parse_details(details, b2);
            lemma_parse_text_bytes(barcode, tail);
        },
    }
}

/// Whatever `parse_instruction` accepts starts with the encoding of the
/// payload read, and that payload can be written.
pub proof fn lemma_instruction_of_parse(b: Seq<u8>, v: BarcodeInstructionView, rest: Seq<u8>)
    requires
        parse_instruction(b) == Some((v, rest)),
    ensures
        v.wf(),
        b == v.encoding() + rest,
{
    let b1 = b.skip(1);
    let (details, b2) = parse_details(b1)->0;
    let (barcode, b3) = parse_text(b2)->0;
    lemma_details_of_parse(b1, details, b2);
    lemma_text_bytes_of_parse(b2, barcode, b3);
    assert(b =~= seq![CREATE_BARCODE_ITEM] + b1);
    assert(b =~= v.encoding() + rest);
}

impl BarcodeInstruction {
    /// Whether the payload can be written.
    pub fn is_valid(&self) -> (r: bool)
        ensures
            r == self@.wf(),
    {
        match self {
            BarcodeInstruction::CreateBarcodeItem { details, barcode } => details.is_valid()
                && fits(barcode.as_str()),
        }
    }

    /// The encoding of the payload.
    pub fn encode(&self) -> (r: Vec<u8>)
        requires
            self@.wf(),
        ensures
            r@ == self@.encoding(),
    {
        let mut out: Vec<u8> = Vec::new();
        match self {
            BarcodeInstruction::CreateBarcodeItem { details, barcode } => {
                out.push(CREATE_BARCODE_ITEM);
                details.encode_into(&mut out);
                put_text(&mut out, barcode.as_str());
            },
        }
        assert(out@ =~= self@.encoding());
        out
    }

    /// Decodes a payload from `input`, which must hold it and nothing more.
    pub fn decode(input: &[u8]) -> (r: Result<BarcodeInstruction, BarcodeError>)
        ensures
            match r {
                Ok(v) => decode_instruction(input@) == Some(v@),
                Err(e) => e == BarcodeError::MalformedData && decode_instruction(input@) is None,
            },
    {
        if input.len() < 1 || input[0] != CREATE_BARCODE_ITEM {
            return Err(BarcodeError::MalformedData);
        }
        let (details, after_details) = match ProductDetails::take(input, 1) {
            Some(p) => p,
            None => { return Err(BarcodeError::MalformedData); },
        };
        let (barcode, next) = match take_text(input, after_details) {
            Some(p) => p,
            None => { return Err(BarcodeError::MalformedData); },
        };
        if next == input.len() {
            Ok(BarcodeInstruction::CreateBarcodeItem { details, barcode })
        } else {
            Err(BarcodeError::MalformedData)
        }
    }
}

/// The least number of bytes that encoded product details take: two empty
/// texts and the price.
pub const MIN_DETAILS_LEN: usize = 16;

/// The least number of bytes that an encoded entry takes.
pub const MIN_ENTRY_LEN: usize = 52;

/// The least number of bytes that an encoded payload takes.
pub const MIN_INSTRUCTION_LEN: usize = 21;

/// Round trip: decoding the encoding of product details that can be written
/// gives the same details.
pub proof fn details_round_trip(v: ProductDetailsView)
    requires
        v.wf(),
    ensures
        decode_details(v.encoding()) == Some(v),
{
    lemma_parse_details(v, Seq::empty());
    assert(v.encoding() + Seq::<u8>::empty() =~= v.encoding());
}

/// Round trip: decoding the encoding of an entry that can be written gives the
/// same entry.
pub proof fn entry_round_trip(v: BarcodeEntryView)
    requires
        v.wf(),
    ensures
        decode_entry(v.encoding()) == Some(v),
{
    lemma_parse_entry(v, Seq::empty());
    assert(v.encoding() + Seq::<u8>::empty() =~= v.encoding());
}

/// Round trip: decoding the encoding of a payload that can be written gives
/// the same payload.
pub proof fn instruction_round_trip(v: BarcodeInstructionView)
    requires
        v.wf(),
    ensures
        decode_instruction(v.encoding()) == Some(v),
{
    lemma_parse_instruction(v, Seq::empty());
    assert(v.encoding() + Seq::<u8>::empty() =~= v.encoding());
}

/// The only bytes that decode to product details are the encoding of those
/// details, and what decodes can be written again.
pub proof fn details_decode_is_inverse(b: Seq<u8>, v: ProductDetailsView)
    requires
        decode_details(b) == Some(v),
    ensures
        v.wf(),
        v.encoding() == b,
{
    let (_, rest) = parse_details(b)->0;
    lemma_details_of_parse(b, v, rest);
    assert(v.encoding() + rest =~= v.encoding());
}

/// The only bytes that decode to an entry are the encoding of that entry, and
/// what decodes can be written again.
pub proof fn entry_decode_is_inverse(b: Seq<u8>, v: BarcodeEntryView)
    requires
        decode_entry(b) == Some(v),
    ensures
        v.wf(),
        v.encoding() == b,
{
    let (_, rest) = parse_entry(b)->0;
    lemma_entry_of_parse(b, v, rest);
    assert(v.encoding() + rest =~= v.encoding());
}

/// The only bytes that decode to a payload are the encoding of that payload,
/// and what decodes can be written again.
pub proof fn instruction_decode_is_inverse(b: Seq<u8>, v: BarcodeInstructionView)
    requires
        decode_instruction(b) == Some(v),
    ensures
        v.wf(),
        v.encoding() == b,
{
    let (_, rest) = parse_instruction(b)->0;
    lemma_instruction_of_parse(b, v, rest);
    assert(v.encoding() + rest =~= v.encoding());
}

/// Product details that were read took at least their fixed fields from the
/// input.
pub proof fn lemma_parse_details_consumes(b: Seq<u8>, v: ProductDetailsView, rest: Seq<u8>)
    requires
        parse_details(b) == Some((v, rest)),
    ensures
        b.len() >= MIN_DETAILS_LEN + rest.len(),
{
    let (name, b1) = parse_text(b)->0;
    let (icon, b2) = parse_text(b1)->0;
    lemma_parse_text_consumes(b, name, b1);
    lemma_parse_text_consumes(b1, icon, b2);
}

/// Bytes shorter than the fixed fields of product details do not decode.
pub proof fn short_details_rejected(b: Seq<u8>)
    requires
        b.len() < MIN_DETAILS_LEN,
    ensures
        decode_details(b) is None,
{
    if parse_details(b) is Some {
        let (v, rest) = parse_details(b)->0;
        lemma_parse_details_consumes(b, v, rest);
    }
}

/// Bytes shorter than the fixed fields of an entry do not decode.
pub proof fn short_entry_rejected(b: Seq<u8>)
    requires
        b.len() < MIN_ENTRY_LEN,
    ensures
        decode_entry(b) is None,
{
    if parse_entry(b) is Some {
        let (owner, b1) = parse_identity(b)->0;
        let (details, b2) = parse_details(b1)->0;
        let (barcode, b3) = parse_text(b2)->0;
        lemma_parse_details_consumes(b1, details, b2);
        lemma_parse_text_consumes(b2, barcode, b3);
    }
}

/// Bytes shorter than the fixed fields of a payload do not decode.
pub proof fn short_instruction_rejected(b: Seq<u8>)
    requires
        b.len() < MIN_INSTRUCTION_LEN,
    ensures
        decode_instruction(b) is None,
{
    if parse_instruction(b) is Some {
        let b1 = b.skip(1);
        let (details, b2) = parse_details(b1)->0;
        let (barcode, b3) = parse_text(b2)->0;
        lemma_parse_details_consumes(b1, details, b2);
        lemma_parse_text_consumes(b2, barcode, b3);
    }
}

} // verus!
