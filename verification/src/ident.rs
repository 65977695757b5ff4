//! Identifiers and times as the library keeps them: a UUID as its 128-bit number, an instant as
//! RFC 3339 text in UTC.
use vstd::prelude::*;
use vstd::string::*;

verus! {

/// The lower-case hexadecimal digit for `d`, which is below sixteen.
pub open spec fn lower_hex(d: nat) -> char {
    if d < 10 {
        (48 + d) as char
    } else {
        (87 + d) as char
    }
}

/// The lowest `len` hexadecimal digits of `n`.
pub open spec fn hex_text(n: nat, len: nat) -> Seq<char>
    decreases len,
{
    if len == 0 {
        seq![]
    } else {
        hex_text(n / 16, (len - 1) as nat).push(lower_hex(n % 16))
    }
}

/// The text of a UUID: its 32 hexadecimal digits in groups of 8, 4, 4, 4 and 12.
pub open spec fn uuid_text(id: u128) -> Seq<char> {
    let h = hex_text(id as nat, 32);
    h.subrange(0, 8).push('-') + h.subrange(8, 12).push('-') + h.subrange(12, 16).push('-')
        + h.subrange(16, 20).push('-') + h.subrange(20, 32)
}

/// What `uuid::Uuid::parse_str` reads out of a text: the UUID, or its error in words.
pub uninterp spec fn uuid_in(text: Seq<char>) -> Result<u128, Seq<char>>;

/// `uuid::Uuid` displayed: the hyphenated form in lower case.
#[verifier::external_body]
pub(crate) fn format_uuid(id: u128) -> (s: String)
    ensures
        s@ == uuid_text(id),
{
    uuid::Uuid::from_u128(id).to_string()
}

/// `uuid::Uuid::parse_str`. The hyphenated form in lower case gives back the UUID; which other
/// forms are accepted, and the words of the error, are left to the uuid crate.
#[verifier::external_body]
pub(crate) fn parse_uuid(text: &str) -> (r: Result<u128, String>)
    ensures
        match r {
            Ok(id) => uuid_in(text@) == Ok::<u128, Seq<char>>(id),
            Err(e) => uuid_in(text@) == Err::<u128, Seq<char>>(e@),
        },
        forall|id: u128| text@ == #[trigger] uuid_text(id) ==> r is Ok && r->Ok_0 == id,
{
    uuid::Uuid::parse_str(text).map(|id| id.as_u128()).map_err(|e| e.to_string())
}

/// What chrono reads out of a time text, written as RFC 3339 in UTC; or its error in words.
pub uninterp spec fn utc_text(text: Seq<char>) -> Result<Seq<char>, Seq<char>>;

/// A random UUID: its version is 4, and its variant the one that UUIDs have.
pub open spec fn is_random_uuid(id: u128) -> bool {
    &&& id / 0x1000_0000_0000_0000_0000 % 16 == 4
    &&& id / 0x4000_0000_0000_0000 % 4 == 2
}

/// `Uuid::new_v4` and `Uuid::as_u128`: a fresh UUID whose bits are random, but for those that tell
/// its version and its variant.
#[verifier::external_body]
pub(crate) fn new_uuid() -> (id: u128)
    ensures
        is_random_uuid(id),
{
    uuid::Uuid::new_v4().as_u128()
}

/// Whether a text is a time in the form in which times are kept: chrono reads it, and writes what
/// it read as the same text.
pub open spec fn is_utc(text: Seq<char>) -> bool {
    utc_text(text) == Ok::<Seq<char>, Seq<char>>(text)
}

/// `str::parse` into chrono's `DateTime<Utc>`, and `DateTime::to_rfc3339` of the instant, which is
/// read back as the same instant. Which texts are accepted, and the words of the error, are left
/// to chrono.
#[verifier::external_body]
pub(crate) fn parse_time(text: &str) -> (r: Result<String, String>)
    ensures
        match r {
            Ok(t) => utc_text(text@) == Ok::<Seq<char>, Seq<char>>(t@) && is_utc(t@),
            Err(e) => utc_text(text@) == Err::<Seq<char>, Seq<char>>(e@),
        },
{
    text.parse::<chrono::DateTime<chrono::Utc>>().map(|t| t.to_rfc3339()).map_err(
        |e| e.to_string(),
    )
}

proof fn lemma_hex_text_len(n: nat, len: nat)
    ensures
        hex_text(n, len).len() == len,
    decreases len,
{
    if len > 0 {
        lemma_hex_text_len(n / 16, (len - 1) as nat);
    }
}

/// `16^len`.
spec fn pow16(len: nat) -> nat
    decreases len,
{
    if len == 0 {
        1
    } else {
        16 * pow16((len - 1) as nat)
    }
}

proof fn lemma_hex_text_injective(m: nat, n: nat, len: nat)
    requires
        m < pow16(len),
        n < pow16(len),
        hex_text(m, len) == hex_text(n, len),
    ensures
        m == n,
    decreases len,
{
    if len > 0 {
        assert(hex_text(m, len).last() == lower_hex(m % 16));
        assert(hex_text(n, len).last() == lower_hex(n % 16));
        assert(m % 16 == n % 16);
        assert(hex_text(m, len).drop_last() =~= hex_text(m / 16, (len - 1) as nat));
        assert(hex_text(n, len).drop_last() =~= hex_text(n / 16, (len - 1) as nat));
        lemma_hex_text_injective(m / 16, n / 16, (len - 1) as nat);
    }
}

/// The text of a UUID has 36 characters.
pub proof fn lemma_uuid_len(id: u128)
    ensures
        uuid_text(id).len() == 36,
{
    lemma_hex_text_len(id as nat, 32);
}

proof fn lemma_hex_text_chars(n: nat, len: nat)
    ensures
        forall|i: int| 0 <= i < len ==> #[trigger] hex_text(n, len)[i] != '/',
        hex_text(n, len).len() == len,
    decreases len,
{
    lemma_hex_text_len(n, len);
    if len > 0 {
        lemma_hex_text_chars(n / 16, (len - 1) as nat);
        lemma_hex_text_len(n / 16, (len - 1) as nat);
        assert(lower_hex(n % 16) != '/');
    }
}

/// The text of a UUID is no absolute path.
pub proof fn lemma_uuid_start(id: u128)
    ensures
        uuid_text(id).len() == 36,
        uuid_text(id)[0] != '/',
{
    lemma_uuid_len(id);
    lemma_hex_text_chars(id as nat, 32);
    assert(uuid_text(id)[0] == hex_text(id as nat, 32)[0]);
}

/// Different UUIDs have different texts.
pub proof fn uuid_text_is_injective(a: u128, b: u128)
    ensures
        uuid_text(a) == uuid_text(b) ==> a == b,
{
    if uuid_text(a) == uuid_text(b) {
        let h = hex_text(a as nat, 32);
        let k = hex_text(b as nat, 32);
        lemma_hex_text_len(a as nat, 32);
        lemma_hex_text_len(b as nat, 32);
        let s = uuid_text(a);
        let t = uuid_text(b);
        assert forall|i: int| 0 <= i < 32 implies h[i] == k[i] by {
            let j = if i < 8 {
                i
            } else if i < 12 {
                i + 1
            } else if i < 16 {
                i + 2
            } else if i < 20 {
                i + 3
            } else {
                i + 4
            };
            assert(s[j] == h[i]);
            assert(t[j] == k[i]);
        }
        assert(h =~= k);
        assert(pow16(32) == 0x1_0000_0000_0000_0000_0000_0000_0000_0000) by {
            reveal_with_fuel(pow16, 33);
        }
        lemma_hex_text_injective(a as nat, b as nat, 32);
    }
}

/// `Utc::now` and `DateTime::to_rfc3339`: the current time, in the form in which times are kept.
#[verifier::external_body]
pub(crate) fn current_time() -> (t: String)
    ensures
        is_utc(t@),
{
    chrono::Utc::now().to_rfc3339()
}

/// The text of an id, as it is shown and kept.
pub fn id_text(id: u128) -> (s: String)
    ensures
        s@ == uuid_text(id),
{
    format_uuid(id)
}

/// The id in a text, or why there is none. The text of an id is read as that id.
pub fn read_id(text: &str) -> (r: Result<u128, String>)
    ensures
        match r {
            Ok(id) => uuid_in(text@) == Ok::<u128, Seq<char>>(id),
            Err(e) => uuid_in(text@) == Err::<u128, Seq<char>>(e@),
        },
        forall|id: u128| text@ == #[trigger] uuid_text(id) ==> r is Ok && r->Ok_0 == id,
{
    parse_uuid(text)
}

proof fn lemma_hex_digits(n: nat, len: nat)
    ensures
        hex_text(n, len).len() == len,
        forall|i: int|
            0 <= i < len ==> '0' <= #[trigger] hex_text(n, len)[i] <= '9' || 'a' <= hex_text(
                n,
                len,
            )[i] <= 'f',
    decreases len,
{
    lemma_hex_text_len(n, len);
    if len > 0 {
        lemma_hex_digits(n / 16, (len - 1) as nat);
    }
}

/// The text of a UUID has the usual form: 36 characters, hyphens after the 8th, 12th, 16th and 20th
/// digit, and lower-case hexadecimal digits in all other places. The last digit tells the lowest
/// four bits.
pub proof fn uuid_text_has_the_usual_form(id: u128, i: int)
    requires
        0 <= i < 36,
    ensures
        uuid_text(id).len() == 36,
        i == 8 || i == 13 || i == 18 || i == 23 <==> uuid_text(id)[i] == '-',
        uuid_text(id)[i] != '-' ==> '0' <= uuid_text(id)[i] <= '9' || 'a' <= uuid_text(id)[i]
            <= 'f',
        uuid_text(id)[35] == lower_hex((id % 16) as nat),
{
    let h = hex_text(id as nat, 32);
    lemma_hex_digits(id as nat, 32);
    lemma_uuid_len(id);
    let t = uuid_text(id);
    let k = if i < 8 {
        i
    } else if i < 13 {
        i - 1
    } else if i < 18 {
        i - 2
    } else if i < 23 {
        i - 3
    } else {
        i - 4
    };
    if i != 8 && i != 13 && i != 18 && i != 23 {
        assert(t[i] == h[k]);
    }
    assert(t[35] == h[31]);
}

} // verus!
