//! Commercial licenses: reading a license key, checking its signature and
//! deciding whether it is still active.
use vstd::prelude::*;
use ed25519_compact::Error as Ed25519Error;
use crate::editors::Kind;
use crate::error::{Error, mk_err};
use crate::text::{
    digits_value, is_u64_text, lemma_split_on_nonempty, parse_u64, split_on, split_str,
    strs_view, unsigned_digits,
};

verus! {

/// `base64::DecodeError`, carried through unread.
#[verifier::external_type_specification]
#[verifier::external_body]
pub struct ExBase64DecodeError(base64::DecodeError);

/// `ed25519_compact::Error`, carried through unread.
#[verifier::external_type_specification]
#[verifier::external_body]
pub struct ExEd25519Error(Ed25519Error);

/// What `base64::decode` (standard alphabet, padding required) gives for
/// the text `input`: the decoded bytes, or `None` when it fails.
pub uninterp spec fn base64_decoded(input: Seq<char>) -> Option<Seq<u8>>;

/// Whether `ed25519_compact::PublicKey::verify` accepts `signature` as a
/// signature of the UTF-8 encoding of `message` by the key `public_key`.
pub uninterp spec fn ed25519_accepts(
    public_key: Seq<u8>,
    message: Seq<char>,
    signature: Seq<u8>,
) -> bool;

/// Decodes standard base64 with `base64::decode`.
///
/// Trusted: the result is the one named by `base64_decoded`, a function of
/// the input text alone; nothing more is claimed of what it is.
#[verifier::external_body]
fn base64_decode(input: &str) -> (r: Result<Vec<u8>, base64::DecodeError>)
    ensures
        match r {
            Ok(bytes) => base64_decoded(input@) == Some(bytes@),
            Err(_) => base64_decoded(input@) is None,
        },
{
    base64::decode(input)
}

/// Reads a signature from bytes with `ed25519_compact::Signature::from_slice`.
///
/// Trusted: the crate's source accepts exactly the slices of 64 bytes and
/// keeps them unchanged; the signature is handed back as its bytes.
#[verifier::external_body]
fn signature_from_slice(bytes: &[u8]) -> (r: Result<[u8; 64], Ed25519Error>)
    ensures
        r is Ok <==> bytes@.len() == 64,
        r matches Ok(sig) ==> sig@ == bytes@,
{
    ed25519_compact::Signature::from_slice(bytes).map(|sig| *sig)
}

/// Checks a signature with `ed25519_compact::PublicKey::verify`, the key and
/// signature built from their bytes with the crate's `new` constructors.
///
/// Trusted: the outcome is the one named by `ed25519_accepts`, a function of
/// the key, the message and the signature alone.
#[verifier::external_body]
fn ed25519_verify(
    public_key: &[u8; 32],
    message: &str,
    signature: &[u8; 64],
) -> (r: Result<(), Ed25519Error>)
    ensures
        r is Ok <==> ed25519_accepts(public_key@, message@, signature@),
{
    ed25519_compact::PublicKey::new(*public_key).verify(
        message,
        &ed25519_compact::Signature::new(*signature),
    )
}

/// The number of seconds in a (non-leap) year: how long a license lasts.
pub const YEAR_IN_SECS: u64 = 365 * 24 * 60 * 60;

/// A license under which elm-pair runs.
#[derive(Debug, Clone, PartialEq, Eq)]
pub enum License {
    NonCommercial,
    Commercial {
        order_id: String,
        /// The end of the license, in seconds since the Unix epoch.
        expires_at: u64,
    },
}

/// The mathematical form of [`License`].
pub enum SpecLicense {
    NonCommercial,
    Commercial { order_id: Seq<char>, expires_at: u64 },
}

impl View for License {
    type V = SpecLicense;

    open spec fn view(&self) -> SpecLicense {
        match self {
            License::NonCommercial => SpecLicense::NonCommercial,
            License::Commercial { order_id, expires_at } => SpecLicense::Commercial {
                order_id: order_id@,
                expires_at: *expires_at,
            },
        }
    }
}

/// The message a version 1 license key signs: `1-<order id>-<order time>`.
pub open spec fn signed_message(order_id: Seq<char>, ordered_at: Seq<char>) -> Seq<char> {
    seq!['1', '-'] + order_id + seq!['-'] + ordered_at
}

/// Why the signature bytes `decoded` are refused for `message` under
/// `public_key`, `None` standing for a base64 text that did not decode; or
/// `None` when they are a valid signature.
pub open spec fn decoded_signature_problem(
    public_key: Seq<u8>,
    message: Seq<char>,
    decoded: Option<Seq<u8>>,
) -> Option<Seq<char>> {
    match decoded {
        None => Some("failed to base64-decode license signature"@),
        Some(bytes) => if bytes.len() != 64 {
            Some("failed to read ed25519 license signature"@)
        } else if !ed25519_accepts(public_key, message, bytes) {
            Some("failed to verify license signature"@)
        } else {
            None
        },
    }
}

/// Why the base64 signature `signature` is refused for `message` under
/// `public_key`, or `None` when it is a valid signature.
pub open spec fn signature_problem(
    public_key: Seq<u8>,
    message: Seq<char>,
    signature: Seq<char>,
) -> Option<Seq<char>> {
    decoded_signature_problem(public_key, message, base64_decoded(signature))
}

/// Whether the order time `ordered_at` of a correctly signed key gives an
/// expiry time the clock can represent: a `u64` whose sum with a year stays
/// within `i64::MAX` seconds.
pub open spec fn valid_order_time(ordered_at: Seq<char>) -> bool {
    is_u64_text(ordered_at) && digits_value(unsigned_digits(ordered_at)) + YEAR_IN_SECS
        <= i64::MAX
}

/// Whether the segments `segs` of a key have the shape of a version 1
/// license: `1`, the order id, the order time and the signature.
pub open spec fn is_v1_shape(segs: Seq<Seq<char>>) -> bool {
    segs.len() == 4 && segs[0] == seq!['1']
}

/// Whether reading the key `key` stops the program: a correctly signed
/// version 1 key whose order time is no valid time.
pub open spec fn license_key_fails_hard(key: Seq<char>, public_key: Seq<u8>) -> bool {
    let segs = split_on(key, '-');
    &&& is_v1_shape(segs)
    &&& signature_problem(public_key, signed_message(segs[1], segs[2]), segs[3]) is None
    &&& !valid_order_time(segs[2])
}

/// What reading the license key `key` gives: the license, or the error
/// message.
pub open spec fn spec_parse_license(key: Seq<char>, public_key: Seq<u8>) -> Result<
    SpecLicense,
    Seq<char>,
> {
    let segs = split_on(key, '-');
    if segs[0].len() == 0 {
        Err("can't read license version"@)
    } else if is_v1_shape(segs) {
        match signature_problem(public_key, signed_message(segs[1], segs[2]), segs[3]) {
            Some(msg) => Err(msg),
            None => Ok(
                SpecLicense::Commercial {
                    order_id: segs[1],
                    expires_at: (digits_value(unsigned_digits(segs[2])) + YEAR_IN_SECS) as u64,
                },
            ),
        }
    } else if segs[0] == seq!['1'] {
        Err("v1 license has unexpected structure"@)
    } else {
        Err("license with unknown version "@ + segs[0])
    }
}

/// Whether a parse outcome has the mathematical form `spec`.
pub open spec fn parse_outcome_is(r: Result<License, Error>, spec: Result<SpecLicense, Seq<char>>) -> bool {
    match r {
        Ok(l) => spec == Ok::<SpecLicense, Seq<char>>(l@),
        Err(e) => spec == Err::<SpecLicense, Seq<char>>(e.0@),
    }
}

/// Checks that `signature_base64` is a valid signature of `msg` by the key
/// `public_key`.
fn verify_signature(public_key: &[u8; 32], msg: &str, signature_base64: &str) -> (r: Result<
    (),
    Error,
>)
    ensures
        match signature_problem(public_key@, msg@, signature_base64@) {
            None => r is Ok,
            Some(m) => r matches Err(e) && e.0@ == m,
        },
{
    match base64_decode(signature_base64) {
        Ok(bytes) => check_decoded_signature(public_key, msg, Some(bytes.as_slice())),
        Err(_) => check_decoded_signature(public_key, msg, None),
    }
}

/// Checks that the decoded signature bytes `decoded` (`None` when the
/// base64 text did not decode) are a valid signature of `msg` by the key
/// `public_key`, and says why not.
pub fn check_decoded_signature(public_key: &[u8; 32], msg: &str, decoded: Option<&[u8]>) -> (r:
    Result<(), Error>)
    ensures
        match decoded_signature_problem(
            public_key@,
            msg@,
            match decoded {
                Some(b) => Some(b@),
                None => None,
            },
        ) {
            None => r is Ok,
            Some(m) => r matches Err(e) && e.0@ == m,
        },
{
    let bytes = match decoded {
        Some(bytes) => bytes,
        None => {
            return Err(mk_err("failed to base64-decode license signature"));
        },
    };
    let signature = match signature_from_slice(bytes) {
        Ok(sig) => sig,
        Err(_) => {
            return Err(mk_err("failed to read ed25519 license signature"));
        },
    };
    match ed25519_verify(public_key, msg, &signature) {
        Ok(()) => Ok(()),
        Err(_) => Err(mk_err("failed to verify license signature")),
    }
}

/// Reads a license from the pieces of its key between dashes; `None` when
/// the key is a correctly signed one with an order time that is no valid
/// time.
fn license_from_segments(segs: &Vec<&str>, public_key: &[u8; 32]) -> (r: Option<
    Result<License, Error>,
>)
    requires
        segs@.len() >= 1,
    ensures
        ({
            let ss = strs_view(segs@);
            let key_fails = is_v1_shape(ss) && signature_problem(
                public_key@,
                signed_message(ss[1], ss[2]),
                ss[3],
            ) is None && !valid_order_time(ss[2]);
            &&& r is None <==> key_fails
            &&& r matches Some(x) ==> parse_outcome_is(
                x,
                if ss[0].len() == 0 {
                    Err("can't read license version"@)
                } else if is_v1_shape(ss) {
                    match signature_problem(public_key@, signed_message(ss[1], ss[2]), ss[3]) {
                        Some(msg) => Err(msg),
                        None => Ok(
                            SpecLicense::Commercial {
                                order_id: ss[1],
                                expires_at: (digits_value(unsigned_digits(ss[2])) + YEAR_IN_SECS)
                                    as u64,
                            },
                        ),
                    }
                } else if ss[0] == seq!['1'] {
                    Err("v1 license has unexpected structure"@)
                } else {
                    Err("license with unknown version "@ + ss[0])
                },
            )
        }),
{
    let ghost ss = strs_view(segs@);
    let version = segs[0];
    assert(version@ == ss[0]);
    if version.unicode_len() == 0 {
        return Some(Err(mk_err("can't read license version")));
    }
    let is_one = version.unicode_len() == 1 && version.get_char(0) == '1';
    assert(is_one <==> ss[0] == seq!['1']) by {
        if ss[0] == seq!['1'] {
            assert(version@.len() == 1);
        }
        if is_one {
            assert(version@ =~= seq!['1']);
        }
    }
    if is_one && segs.len() == 4 {
        let order_id = segs[1];
        let ordered_at = segs[2];
        let signature = segs[3];
        assert(order_id@ == ss[1] && ordered_at@ == ss[2] && signature@ == ss[3]);
        let msg = String::from_str("1-").concat(order_id).concat("-").concat(ordered_at);
        proof {
            reveal_strlit("1-");
            reveal_strlit("-");
            assert(msg@ =~= signed_message(ss[1], ss[2]));
        }
        match verify_signature(public_key, msg.as_str(), signature) {
            Err(e) => {
                return Some(Err(e));
            },
            Ok(()) => {},
        }
        match parse_u64(ordered_at) {
            None => None,
            Some(ordered_at_seconds) => {
                if ordered_at_seconds > (i64::MAX as u64) - YEAR_IN_SECS {
                    None
                } else {
                    Some(
                        Ok(
                            License::Commercial {
                                order_id: order_id.to_string(),
                                expires_at: ordered_at_seconds + YEAR_IN_SECS,
                            },
                        ),
                    )
                }
            },
        }
    } else if is_one {
        Some(Err(mk_err("v1 license has unexpected structure")))
    } else {
        let msg = String::from_str("license with unknown version ").concat(version);
        Some(Err(Error(msg)))
    }
}

/// Reads a license key of the form `1-<order id>-<order time>-<signature>`,
/// checking its signature against `public_key`.
///
/// A correctly signed key whose order time is no valid time stops the
/// program; such keys are left out here (see [`try_parse_license`]).
pub fn parse_license(key: &str, public_key: &[u8; 32]) -> (r: Result<License, Error>)
    requires
        !license_key_fails_hard(key@, public_key@),
    ensures
        parse_outcome_is(r, spec_parse_license(key@, public_key@)),
{
    let segs = split_str(key, '-');
    proof {
        lemma_split_on_nonempty(key@, '-');
    }
    match license_from_segments(&segs, public_key) {
        Some(r) => r,
        None => {
            proof {
                assert(false);
            }
            Err(mk_err("unreachable"))
        },
    }
}

/// Reads a license key like [`parse_license`], for any key: `None` exactly
/// for the keys on which reading stops the program.
pub fn try_parse_license(key: &str, public_key: &[u8; 32]) -> (r: Option<Result<License, Error>>)
    ensures
        r is None <==> license_key_fails_hard(key@, public_key@),
        r matches Some(x) ==> parse_outcome_is(x, spec_parse_license(key@, public_key@)),
{
    let segs = split_str(key, '-');
    proof {
        lemma_split_on_nonempty(key@, '-');
    }
    license_from_segments(&segs, public_key)
}

/// The license in force given what the license file held: `stored_key` is
/// `None` when there is no license file, and an error when it could not be
/// read. Unreadable files and invalid keys give the non-commercial license;
/// `None` comes back for the keys on which reading stops the program.
pub fn read_license(stored_key: Option<Result<String, Error>>, public_key: &[u8; 32]) -> (r: Option<
    License,
>)
    ensures
        match stored_key {
            Some(Ok(key)) => {
                &&& r is None <==> license_key_fails_hard(key@, public_key@)
                &&& r matches Some(l) ==> match spec_parse_license(key@, public_key@) {
                    Ok(sl) => l@ == sl,
                    Err(_) => l@ == SpecLicense::NonCommercial,
                }
            },
            _ => r matches Some(l) && l@ == SpecLicense::NonCommercial,
        },
{
    match stored_key {
        None => Some(License::NonCommercial),
        Some(Err(_)) => Some(License::NonCommercial),
        Some(Ok(key)) => match try_parse_license(key.as_str(), public_key) {
            None => None,
            Some(Ok(license)) => Some(license),
            Some(Err(_)) => Some(License::NonCommercial),
        },
    }
}

/// Whether `license` is active when the clock reads `now` (seconds since the
/// Unix epoch; `None` for a time before the epoch).
pub open spec fn spec_active_at(license: SpecLicense, now: Option<u64>) -> bool {
    match license {
        SpecLicense::NonCommercial => false,
        SpecLicense::Commercial { expires_at, .. } => match now {
            None => true,
            Some(t) => expires_at > t,
        },
    }
}

/// A license active at some time was active at every earlier time, and a
/// non-commercial license is never active.
pub proof fn lemma_active_until_expiry(license: SpecLicense, earlier: u64, later: u64)
    requires
        earlier <= later,
    ensures
        spec_active_at(license, Some(later)) ==> spec_active_at(license, Some(earlier)),
        license is NonCommercial ==> !spec_active_at(license, Some(later)),
{
}

/// A license read from a correctly signed key lasts a year from its order
/// time.
pub proof fn lemma_license_lasts_a_year(key: Seq<char>, public_key: Seq<u8>)
    requires
        !license_key_fails_hard(key, public_key),
        spec_parse_license(key, public_key) is Ok,
    ensures
        ({
            let segs = split_on(key, '-');
            spec_parse_license(key, public_key) == Ok::<SpecLicense, Seq<char>>(
                SpecLicense::Commercial {
                    order_id: segs[1],
                    expires_at: (digits_value(unsigned_digits(segs[2])) + YEAR_IN_SECS) as u64,
                },
            ) && digits_value(unsigned_digits(segs[2])) + YEAR_IN_SECS <= i64::MAX
        }),
{
}

/// Whether `license` is active when the clock reads `now`.
pub fn license_active_at(license: &License, now: Option<u64>) -> (r: bool)
    ensures
        r == spec_active_at(license@, now),
{
    match license {
        License::NonCommercial => false,
        License::Commercial { expires_at, .. } => match now {
            None => true,
            Some(t) => *expires_at > t,
        },
    }
}

/// Reads the clock with `std::time::SystemTime::now`, as whole seconds since
/// the Unix epoch (`duration_since(UNIX_EPOCH)` then `as_secs`).
///
/// Trusted, and nothing is claimed of the reading: it is the time.
#[verifier::external_body]
fn clock_seconds() -> (r: Option<u64>) {
    std::time::SystemTime::now().duration_since(std::time::UNIX_EPOCH).ok().map(|d| d.as_secs())
}

/// Whether `license` is active now: a commercial license that has not
/// expired.
pub fn license_active(license: &License) -> (r: bool)
    ensures
        license@ is NonCommercial ==> !r,
        exists|now: Option<u64>| r == spec_active_at(license@, now),
{
    let now = clock_seconds();
    license_active_at(license, now)
}

/// The texts that make up the license information shown to the programmer.
#[derive(Debug, Clone, Copy, PartialEq, Eq, Structural)]
pub enum LicenseText {
    /// How to get a license, for programmers without one.
    LicensingInfo,
    /// That the license has expired.
    LicenseExpiredInfo,
    /// A line break.
    LineBreak,
    /// How to activate a license from Neovim.
    ActivateLicenseNeovim,
    /// How to activate a license from VS Code.
    ActivateLicenseVsCode,
}

/// The license information for `license`, for a programmer using an editor
/// of kind `editor_kind`.
pub open spec fn spec_license_info(license: SpecLicense, editor_kind: Kind) -> Seq<LicenseText> {
    seq![
        match license {
            SpecLicense::NonCommercial => LicenseText::LicensingInfo,
            SpecLicense::Commercial { .. } => LicenseText::LicenseExpiredInfo,
        },
        LicenseText::LineBreak,
        match editor_kind {
            Kind::Neovim => LicenseText::ActivateLicenseNeovim,
            Kind::VsCode => LicenseText::ActivateLicenseVsCode,
        },
    ]
}

/// The pieces of license information for `license` shown in an editor of
/// kind `editor_kind`, in order.
pub fn license_info(license: &License, editor_kind: Kind) -> (r: Vec<LicenseText>)
    ensures
        r@ == spec_license_info(license@, editor_kind),
{
    let licensing_info = match license {
        License::NonCommercial => LicenseText::LicensingInfo,
        License::Commercial { .. } => LicenseText::LicenseExpiredInfo,
    };
    let activation_instructions = match editor_kind {
        Kind::Neovim => LicenseText::ActivateLicenseNeovim,
        Kind::VsCode => LicenseText::ActivateLicenseVsCode,
    };
    let r = vec![licensing_info, LicenseText::LineBreak, activation_instructions];
    assert(r@ =~= spec_license_info(license@, editor_kind));
    r
}

/// The license information to show when the clock reads `now`: none while
/// the license is active at that time, the texts of [`license_info`]
/// otherwise.
pub fn show_license_info_at(license: &License, editor_kind: Kind, now: Option<u64>) -> (r: Option<
    Vec<LicenseText>,
>)
    ensures
        r is None <==> spec_active_at(license@, now),
        r matches Some(info) ==> info@ == spec_license_info(license@, editor_kind),
{
    if license_active_at(license, now) {
        None
    } else {
        Some(license_info(license, editor_kind))
    }
}

/// The license information to show now, if any: none while the license is
/// active, the texts of [`license_info`] otherwise.
pub fn show_license_info(license: &License, editor_kind: Kind) -> (r: Option<Vec<LicenseText>>)
    ensures
        license@ is NonCommercial ==> r is Some,
        r matches Some(info) ==> info@ == spec_license_info(license@, editor_kind),
        exists|now: Option<u64>| (r is None <==> spec_active_at(license@, now)),
{
    let now = clock_seconds();
    show_license_info_at(license, editor_kind, now)
}

} // verus!
