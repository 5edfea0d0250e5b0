//! Reading a camera's configuration: the JSON object that says which capture device to open.
use vstd::prelude::*;
use crate::error::CvError;
use vstd::string::StringSliceAdditionalSpecFns;

verus! {

/// What `json::parse(source)` gives for the member `key`: `Err` with the parser's
/// error message (its `Display` text) when `source` is not JSON; otherwise `Ok`, with
/// the member's number as `(positive, mantissa, exponent)` when the document is an
/// object whose member `key` is a number, and `None` for anything else.
pub uninterp spec fn json_member_number(source: Seq<char>, key: Seq<char>) -> Result<
    Option<(bool, u64, i16)>,
    Seq<char>,
>;

/// The most fraction digits that `json::parse` can take into a number's mantissa
/// while the number began as `0.` (or `-0.`): it lowers an `i16` exponent once for each
/// such digit, which overflows past this many.
pub const MAX_FRACTION_DIGITS: usize = 32768;

/// An ASCII decimal digit.
pub open spec fn is_digit(b: u8) -> bool {
    0x30 <= b <= 0x39
}

/// A byte that continues a word or number token: a digit, an ASCII letter, `.`, `+` or `-`.
pub open spec fn is_token_byte(b: u8) -> bool {
    ||| is_digit(b)
    ||| 0x41 <= b <= 0x5a
    ||| 0x61 <= b <= 0x7a
    ||| b == 0x2e
    ||| b == 0x2b
    ||| b == 0x2d
}

/// Where the scan of a text stands outside strings, as far as number fractions go.
pub enum Phase {
    /// Between tokens.
    Between,
    /// Just after a `-` that starts a token.
    Minus,
    /// Just after a token that began `0` (or `-0`).
    Zero,
    /// In the fraction of a number that began `0.` (or `-0.`): the mantissa that the
    /// parser has built from its digits, and how many digits it has taken in.
    Fraction(u64, nat),
    /// Inside any other token.
    Word,
}

/// The scan state after some bytes of a text: inside a string (and just after a
/// backslash there), or outside at some phase.
pub struct ScanState {
    pub in_string: bool,
    pub escaped: bool,
    pub phase: Phase,
}

/// How the phase outside strings moves on byte `c`. A digit of a fraction that began
/// `0.` is taken into the mantissa when the mantissa times ten plus the digit still
/// fits in `u64`, as the parser does.
pub open spec fn phase_step(phase: Phase, c: u8) -> Phase {
    match phase {
        Phase::Between => if c == 0x2d {
            Phase::Minus
        } else if c == 0x30 {
            Phase::Zero
        } else if is_token_byte(c) {
            Phase::Word
        } else {
            Phase::Between
        },
        Phase::Minus => if c == 0x30 {
            Phase::Zero
        } else if is_token_byte(c) {
            Phase::Word
        } else {
            Phase::Between
        },
        Phase::Zero => if c == 0x2e {
            Phase::Fraction(0, 0)
        } else if is_token_byte(c) {
            Phase::Word
        } else {
            Phase::Between
        },
        Phase::Fraction(mantissa, taken) => if is_digit(c) {
            if mantissa * 10 + (c - 0x30) <= u64::MAX {
                Phase::Fraction((mantissa * 10 + (c - 0x30)) as u64, taken + 1)
            } else {
                Phase::Fraction(mantissa, taken)
            }
        } else if is_token_byte(c) {
            Phase::Word
        } else {
            Phase::Between
        },
        Phase::Word => if is_token_byte(c) {
            Phase::Word
        } else {
            Phase::Between
        },
    }
}

/// How the scan state moves on byte `c`: `"` opens and closes strings, a backslash in
/// a string makes the next byte part of the string.
pub open spec fn scan_step(state: ScanState, c: u8) -> ScanState {
    if state.in_string {
        if state.escaped {
            ScanState { in_string: true, escaped: false, phase: Phase::Between }
        } else if c == 0x5c {
            ScanState { in_string: true, escaped: true, phase: Phase::Between }
        } else if c == 0x22 {
            ScanState { in_string: false, escaped: false, phase: Phase::Between }
        } else {
            ScanState { in_string: true, escaped: false, phase: Phase::Between }
        }
    } else if c == 0x22 {
        ScanState { in_string: true, escaped: false, phase: Phase::Between }
    } else {
        ScanState { in_string: false, escaped: false, phase: phase_step(state.phase, c) }
    }
}

/// The scan state after the first `end` bytes of `bytes`.
pub open spec fn scan_state(bytes: Seq<u8>, end: int) -> ScanState
    decreases end,
{
    if end <= 0 || end > bytes.len() {
        ScanState { in_string: false, escaped: false, phase: Phase::Between }
    } else {
        scan_step(scan_state(bytes, end - 1), bytes[end - 1])
    }
}

/// No number in `bytes` that begins `0.` (or `-0.`) outside a string has more than
/// `MAX_FRACTION_DIGITS` fraction digits taken into its mantissa: `json::parse` reads
/// such a text without overflowing its exponent.
pub open spec fn fractions_fit(bytes: Seq<u8>) -> bool {
    forall|end: int|
        0 <= end <= bytes.len() ==> match #[trigger] scan_state(bytes, end).phase {
            Phase::Fraction(_, taken) => taken <= MAX_FRACTION_DIGITS,
            _ => true,
        }
}

/// `json::parse(source)`, then the member `key` of the document (`Index<&str>`, which
/// gives `null` for a missing key or a non-object), read as a number (`as_number`,
/// `as_parts`); a parse error is turned into its `Display` text.
#[verifier::external_body]
fn read_member_number(source: &str, key: &str) -> (r: Result<Option<(bool, u64, i16)>, String>)
    requires
        fractions_fit(source.spec_bytes()),
    ensures
        match r {
            Ok(member) => json_member_number(source@, key@) == Ok::<Option<(bool, u64, i16)>, Seq<char>>(member),
            Err(text) => json_member_number(source@, key@) == Err::<Option<(bool, u64, i16)>, Seq<char>>(text@),
        },
{
    json::parse(source)
        .map(|document| document[key].as_number().map(|number| number.as_parts()))
        .map_err(|error| error.to_string())
}

/// The error code of a configuration that is not valid JSON.
pub const CONFIG_ERROR_CODE: i32 = -9001;

/// What a camera configuration decides for its capture.
pub enum CaptureSetup {
    /// Open the capture device with this index.
    Open(i32),
    /// The configuration is not valid JSON: the capture holds this error.
    Rejected(CvError),
}

/// The message of a configuration error: `"config Error: {detail}"`.
pub open spec fn config_error_message(detail: Seq<char>) -> Seq<char> {
    "config Error: "@ + detail
}

/// The `i32` that a JSON number `(positive, mantissa, exponent)` reads as (what
/// `JsonValue::as_i32` gives): a number with a zero exponent whose signed value,
/// after the mantissa is cast to `i64`, lies in the `i32` range.
pub open spec fn number_as_i32(parts: (bool, u64, i16)) -> Option<i32> {
    let (positive, mantissa, exponent) = parts;
    let value: int = if positive {
        (mantissa as i64) as int
    } else {
        -((mantissa as i64) as int)
    };
    if exponent != 0 {
        None
    } else if i32::MIN <= value <= i32::MAX {
        Some(value as i32)
    } else {
        None
    }
}

/// The `i32` that a JSON member reads as, if any.
pub open spec fn member_as_i32(member: Option<(bool, u64, i16)>) -> Option<i32> {
    match member {
        Some(parts) => number_as_i32(parts),
        None => None,
    }
}

/// The `i32` that a JSON number `(positive, mantissa, exponent)` reads as.
pub fn number_to_i32(parts: (bool, u64, i16)) -> (r: Option<i32>)
    ensures
        r == number_as_i32(parts),
        parts.2 != 0 ==> r is None,
        parts.2 == 0 && parts.0 && parts.1 <= i32::MAX ==> r == Some(parts.1 as i32),
        parts.2 == 0 && !parts.0 && parts.1 <= 0x8000_0000 ==> r == Some((-(parts.1 as int)) as i32),
        r is Some ==> parts.2 == 0,
{
    proof {
        law_whole_numbers_read_exactly(parts);
    }
    let (positive, mantissa, exponent) = parts;
    if exponent != 0 {
        return None;
    }
    let signed = mantissa as i64;
    let value: i64 = if positive {
        signed
    } else if signed == i64::MIN {
        return None;
    } else {
        -signed
    };
    if i32::MIN as i64 <= value && value <= i32::MAX as i64 {
        Some(value as i32)
    } else {
        None
    }
}

/// A JSON number reads as an `i32` only when its exponent is zero,
/// and every whole number whose value lies in the `i32` range reads as exactly that
/// value, whatever its digits: a positive mantissa up to `i32::MAX` as itself, a
/// negative one up to `2^31` as its negation.
pub proof fn law_whole_numbers_read_exactly(parts: (bool, u64, i16))
    ensures
        parts.2 != 0 ==> number_as_i32(parts) is None,
        parts.2 == 0 && parts.0 && parts.1 <= i32::MAX ==> number_as_i32(parts) == Some(parts.1 as i32),
        parts.2 == 0 && !parts.0 && parts.1 <= 0x8000_0000 ==> number_as_i32(parts) == Some(
            (-(parts.1 as int)) as i32,
        ),
        number_as_i32(parts) is Some ==> parts.2 == 0,
{
    let (positive, mantissa, exponent) = parts;
    if mantissa <= 0x8000_0000 {
        assert((mantissa as i64) as int == mantissa) by (bit_vector)
            requires
                mantissa <= 0x8000_0000u64,
        ;
    }
}

/// Every `i32` is read back as itself from the number JSON writes for it: its sign,
/// its absolute value as the mantissa, and a zero exponent.
pub proof fn law_every_index_reads_back(n: i32)
    ensures
        number_as_i32((n >= 0, (if n >= 0 { n as int } else { -(n as int) }) as u64, 0i16)) == Some(n),
{
    law_whole_numbers_read_exactly((n >= 0, (if n >= 0 { n as int } else { -(n as int) }) as u64, 0i16));
}

/// The error a capture holds when its configuration is not JSON, given the parser's message.
pub fn config_error(detail: &str) -> (r: CvError)
    ensures
        r.code == CONFIG_ERROR_CODE,
        r.message@ == config_error_message(detail@),
{
    let mut message = String::from_str("config Error: ");
    message.append(detail);
    CvError::new(CONFIG_ERROR_CODE, message)
}

/// What `json::parse(config)` gives for the member `index`, read as an `i32`:
/// `Err` with the parser's message, or `Ok` with the index when it is an `i32`.
pub open spec fn index_reading(config: Seq<char>) -> Result<Option<i32>, Seq<char>> {
    match json_member_number(config, "index"@) {
        Ok(member) => Ok(member_as_i32(member)),
        Err(detail) => Err(detail),
    }
}

/// A reading that names a capture: not JSON, or JSON whose `index` is an `i32`.
pub open spec fn reading_decides(reading: Result<Option<i32>, Seq<char>>) -> bool {
    !(reading matches Ok(None))
}

/// What a capture setup is, given what the configuration read as.
pub open spec fn setup_matches(r: CaptureSetup, reading: Result<Option<i32>, Seq<char>>) -> bool {
    match reading {
        Err(detail) => r matches CaptureSetup::Rejected(e) && e.code == CONFIG_ERROR_CODE
            && e.message@ == config_error_message(detail),
        Ok(Some(i)) => r == CaptureSetup::Open(i),
        Ok(None) => false,
    }
}

/// Reads the member `index` of a configuration as an `i32`: `Err` with the parser's
/// message when the text is not JSON, `Ok(None)` when `index` is missing or is not an
/// `i32`, `Ok(Some(i))` otherwise.
pub fn read_config_index(config: &str) -> (r: Result<Option<i32>, String>)
    requires
        fractions_fit(config.spec_bytes()),
    ensures
        match (r, index_reading(config@)) {
            (Ok(a), Ok(b)) => a == b,
            (Err(a), Err(b)) => a@ == b,
            _ => false,
        },
{
    match read_member_number(config, "index") {
        Ok(member) => {
            let index = match member {
                Some(parts) => number_to_i32(parts),
                None => None,
            };
            Ok(index)
        },
        Err(detail) => Err(detail),
    }
}

/// What a configuration that read as `reading` decides: a configuration error when it
/// was not JSON, the device to open when its `index` is an `i32`, and nothing when it is not.
pub fn setup_from_reading(reading: Result<Option<i32>, String>) -> (r: Option<CaptureSetup>)
    ensures
        match reading {
            Ok(None) => r is None,
            Ok(Some(i)) => r == Some(CaptureSetup::Open(i)),
            Err(detail) => r matches Some(CaptureSetup::Rejected(e)) && e.code == CONFIG_ERROR_CODE
                && e.message@ == config_error_message(detail@),
        },
{
    match reading {
        Ok(Some(i)) => Some(CaptureSetup::Open(i)),
        Ok(None) => None,
        Err(detail) => Some(CaptureSetup::Rejected(config_error(detail.as_str()))),
    }
}

/// The scan phase as the checker holds it.
enum ScanPhase {
    Between,
    Minus,
    Zero,
    Fraction(u64, usize),
    Word,
}

/// The checker's phase stands for the scan phase `phase`.
spec fn phase_is(held: ScanPhase, phase: Phase) -> bool {
    match (held, phase) {
        (ScanPhase::Between, Phase::Between) => true,
        (ScanPhase::Minus, Phase::Minus) => true,
        (ScanPhase::Zero, Phase::Zero) => true,
        (ScanPhase::Fraction(m1, n1), Phase::Fraction(m2, n2)) => m1 == m2 && n1 == n2,
        (ScanPhase::Word, Phase::Word) => true,
        _ => false,
    }
}

fn is_token_byte_exec(c: u8) -> (r: bool)
    ensures
        r == is_token_byte(c),
{
    (0x30 <= c && c <= 0x39) || (0x41 <= c && c <= 0x5a) || (0x61 <= c && c <= 0x7a) || c == 0x2e
        || c == 0x2b || c == 0x2d
}

/// One step of the phase outside strings, as `phase_step` describes it.
fn next_phase(held: ScanPhase, c: u8, Ghost(phase): Ghost<Phase>) -> (r: ScanPhase)
    requires
        phase_is(held, phase),
        phase matches Phase::Fraction(_, taken) ==> taken <= MAX_FRACTION_DIGITS,
    ensures
        phase_is(r, phase_step(phase, c)),
{
    match held {
        ScanPhase::Between => if c == 0x2d {
            ScanPhase::Minus
        } else if c == 0x30 {
            ScanPhase::Zero
        } else if is_token_byte_exec(c) {
            ScanPhase::Word
        } else {
            ScanPhase::Between
        },
        ScanPhase::Minus => if c == 0x30 {
            ScanPhase::Zero
        } else if is_token_byte_exec(c) {
            ScanPhase::Word
        } else {
            ScanPhase::Between
        },
        ScanPhase::Zero => if c == 0x2e {
            ScanPhase::Fraction(0, 0)
        } else if is_token_byte_exec(c) {
            ScanPhase::Word
        } else {
            ScanPhase::Between
        },
        ScanPhase::Fraction(mantissa, taken) => if 0x30 <= c && c <= 0x39 {
            match mantissa.checked_mul(10) {
                Some(scaled) => match scaled.checked_add((c - 0x30) as u64) {
                    Some(next) => ScanPhase::Fraction(next, taken + 1),
                    None => ScanPhase::Fraction(mantissa, taken),
                },
                None => ScanPhase::Fraction(mantissa, taken),
            }
        } else if is_token_byte_exec(c) {
            ScanPhase::Word
        } else {
            ScanPhase::Between
        },
        ScanPhase::Word => if is_token_byte_exec(c) {
            ScanPhase::Word
        } else {
            ScanPhase::Between
        },
    }
}

/// Whether `json::parse` reads `config` without overflowing its exponent, as
/// `fractions_fit` describes it.
pub fn config_fits_parser(config: &str) -> (r: bool)
    ensures
        r == fractions_fit(config.spec_bytes()),
{
    let bytes = config.as_bytes();
    let ghost b = config.spec_bytes();
    let mut in_string = false;
    let mut escaped = false;
    let mut phase = ScanPhase::Between;
    let mut t: usize = 0;
    while t < bytes.len()
        invariant
            bytes@ == b,
            b == config.spec_bytes(),
            t <= b.len(),
            scan_state(b, t as int).in_string == in_string,
            scan_state(b, t as int).escaped == escaped,
            phase_is(phase, scan_state(b, t as int).phase),
            forall|end: int|
                0 <= end <= t ==> match #[trigger] scan_state(b, end).phase {
                    Phase::Fraction(_, taken) => taken <= MAX_FRACTION_DIGITS,
                    _ => true,
                },
        decreases b.len() - t,
    {
        let c = bytes[t];
        let ghost before = scan_state(b, t as int);
        assert(before.phase matches Phase::Fraction(_, taken) ==> taken <= MAX_FRACTION_DIGITS);
        if in_string {
            if escaped {
                escaped = false;
            } else if c == 0x5c {
                escaped = true;
            } else if c == 0x22 {
                in_string = false;
            }
            phase = ScanPhase::Between;
        } else if c == 0x22 {
            in_string = true;
            phase = ScanPhase::Between;
        } else {
            phase = next_phase(phase, c, Ghost(before.phase));
        }
        t = t + 1;
        assert(scan_state(b, t as int) == scan_step(before, c));
        match phase {
            ScanPhase::Fraction(_, taken) => {
                if taken > MAX_FRACTION_DIGITS {
                    assert(!fractions_fit(b));
                    return false;
                }
            },
            _ => {},
        }
    }
    true
}

/// Decides a camera's capture from its configuration: text that is not JSON gives a
/// configuration error carrying the parser's message; JSON whose member `index` is an
/// `i32` names the device to open.
pub fn capture_setup(config: &str) -> (r: CaptureSetup)
    requires
        fractions_fit(config.spec_bytes()),
        reading_decides(index_reading(config@)),
    ensures
        setup_matches(r, index_reading(config@)),
{
    let reading = read_config_index(config);
    match setup_from_reading(reading) {
        Some(setup) => setup,
        None => {
            proof {
                assert(false);
            }
            CaptureSetup::Open(0)
        },
    }
}

/// Decides a camera's capture from its configuration when the configuration decides
/// one, and gives `None` when it is JSON whose member `index` is missing or not an `i32`.
pub fn try_capture_setup(config: &str) -> (r: Option<CaptureSetup>)
    requires
        fractions_fit(config.spec_bytes()),
    ensures
        r is None <==> !reading_decides(index_reading(config@)),
        r matches Some(setup) ==> setup_matches(setup, index_reading(config@)),
{
    match read_config_index(config) {
        Ok(None) => None,
        _ => Some(capture_setup(config)),
    }
}

} // verus!
