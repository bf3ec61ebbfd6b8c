use vstd::prelude::*;

use crate::DecodeError;
use crate::bytes::be32_at;
use crate::bytes::read_u32_be;

verus! {

/// A numeric account identifier.
pub type Uin = u32;

/// One decoded message unit: an arbitrary run of text, or an @-mention of a
/// single account (`At(0)` is the reserved "mention everyone" sentinel).
#[derive(Debug, PartialEq, Eq)]
pub enum TextElement {
    RawText(String),
    At(Uin),
}

/// Mathematical model of a message element.
pub enum ElemModel {
    Text(Seq<char>),
    At(Uin),
}

impl View for TextElement {
    type V = ElemModel;

    open spec fn view(&self) -> ElemModel {
        match self {
            TextElement::RawText(s) => ElemModel::Text(s@),
            TextElement::At(uin) => ElemModel::At(*uin),
        }
    }
}

/// What `decode_mention_from_fixed_payload` yields: the payload must be
/// exactly 13 bytes; byte 6 equal to 1 marks the "everyone" mention; otherwise
/// bytes 7..11 carry the target account id big-endian.
pub open spec fn mention_model(payload: Seq<u8>) -> Result<ElemModel, DecodeError> {
    if payload.len() != 13 {
        Err(DecodeError::InvalidLength)
    } else if payload[6] == 1 {
        Ok(ElemModel::At(0))
    } else {
        Ok(ElemModel::At(be32_at(payload, 7)))
    }
}

/// The decimal digit characters of `n`, most significant first.
pub open spec fn spec_decimal(n: nat) -> Seq<char>
    decreases n,
{
    if n < 10 {
        seq![spec_digit_char(n as int)]
    } else {
        spec_decimal(n / 10) + seq![spec_digit_char((n % 10) as int)]
    }
}

pub open spec fn spec_digit_char(d: int) -> char {
    if d == 0 {
        '0'
    } else if d == 1 {
        '1'
    } else if d == 2 {
        '2'
    } else if d == 3 {
        '3'
    } else if d == 4 {
        '4'
    } else if d == 5 {
        '5'
    } else if d == 6 {
        '6'
    } else if d == 7 {
        '7'
    } else if d == 8 {
        '8'
    } else {
        '9'
    }
}

/// Canonical textual form of an element: a text run is its own text, the
/// "everyone" mention is the fixed marker, and any other mention is '@'
/// followed by the account id in decimal.
pub open spec fn render_model(e: ElemModel) -> Seq<char> {
    match e {
        ElemModel::Text(s) => s,
        ElemModel::At(uin) => if uin == 0 {
            "@全体成员(0)"@
        } else {
            seq!['@'] + spec_decimal(uin as nat)
        },
    }
}

fn digit_str(d: u32) -> (r: &'static str)
    requires
        d < 10,
    ensures
        r@ == seq![spec_digit_char(d as int)],
{
    proof {
        reveal_strlit("0");
        reveal_strlit("1");
        reveal_strlit("2");
        reveal_strlit("3");
        reveal_strlit("4");
        reveal_strlit("5");
        reveal_strlit("6");
        reveal_strlit("7");
        reveal_strlit("8");
        reveal_strlit("9");
    }
    let r: &'static str = if d == 0 {
        "0"
    } else if d == 1 {
        "1"
    } else if d == 2 {
        "2"
    } else if d == 3 {
        "3"
    } else if d == 4 {
        "4"
    } else if d == 5 {
        "5"
    } else if d == 6 {
        "6"
    } else if d == 7 {
        "7"
    } else if d == 8 {
        "8"
    } else {
        "9"
    };
    proof {
        assert(r@ =~= seq![spec_digit_char(d as int)]);
    }
    r
}

fn append_decimal(out: &mut String, n: u32)
    ensures
        final(out)@ == old(out)@ + spec_decimal(n as nat),
    decreases n,
{
    if n >= 10 {
        append_decimal(out, n / 10);
        out.append(digit_str(n % 10));
        proof {
            assert(out@ =~= old(out)@ + spec_decimal(n as nat));
        }
    } else {
        out.append(digit_str(n));
    }
}

impl TextElement {
    /// Wraps an arbitrary text run; always succeeds.
    pub fn from_text(text: String) -> (r: Self)
        ensures
            r@ == ElemModel::Text(text@),
    {
        TextElement::RawText(text)
    }

    /// Wraps a numeric account id; id 0 is the distinguished "everyone" value.
    pub fn from_at(at: Uin) -> (r: Self)
        ensures
            r@ == ElemModel::At(at),
    {
        TextElement::At(at)
    }

    /// The "mention everyone" element.
    pub fn at_all() -> (r: Self)
        ensures
            r@ == ElemModel::At(0),
    {
        TextElement::At(0)
    }

    pub fn is_at(&self) -> (r: bool)
        ensures
            r == (self@ matches ElemModel::At(_)),
    {
        matches!(self, TextElement::At(_))
    }

    pub fn is_text(&self) -> (r: bool)
        ensures
            r == (self@ matches ElemModel::Text(_)),
    {
        matches!(self, TextElement::RawText(_))
    }

    pub fn is_at_all(&self) -> (r: bool)
        ensures
            r == (self@ matches ElemModel::At(uin) && uin == 0),
    {
        matches!(self, TextElement::At(0))
    }

    /// Parses the 13-byte fixed-format mention payload of the wire format.
    pub fn at_from_raw_db(payload: &[u8]) -> (r: Result<Self, DecodeError>)
        ensures
            match mention_model(payload@) {
                Ok(m) => r matches Ok(e) && e@ == m,
                Err(err) => r matches Err(e) && e == err,
            },
    {
        if payload.len() != 13 {
            return Err(DecodeError::InvalidLength);
        }
        if payload[6] == 1 {
            return Ok(Self::at_all());
        }
        let uin = read_u32_be(payload, 7);
        Ok(Self::from_at(uin))
    }

    /// The canonical textual rendering of this element.
    pub fn render(&self) -> (r: String)
        ensures
            r@ == render_model(self@),
    {
        match self {
            TextElement::RawText(s) => s.clone(),
            TextElement::At(uin) => {
                if *uin == 0 {
                    String::from_str("@全体成员(0)")
                } else {
                    let mut out = String::from_str("@");
                    append_decimal(&mut out, *uin);
                    proof {
                        reveal_strlit("@");
                        assert("@"@ =~= seq!['@']);
                    }
                    out
                }
            },
        }
    }
}

/// A 13-byte payload whose flag byte (offset 6) equals 1 decodes to the
/// "mention everyone" element, whatever the other twelve bytes hold.
pub proof fn lemma_flagged_payload_mentions_everyone(payload: Seq<u8>)
    requires
        payload.len() == 13,
        payload[6] == 1,
    ensures
        mention_model(payload) == Ok::<ElemModel, DecodeError>(ElemModel::At(0)),
{
}

/// A payload of any length other than 13 is rejected as `InvalidLength`.
pub proof fn lemma_wrong_length_payload_rejected(payload: Seq<u8>)
    requires
        payload.len() != 13,
    ensures
        mention_model(payload) == Err::<ElemModel, DecodeError>(DecodeError::InvalidLength),
{
}

} // verus!
