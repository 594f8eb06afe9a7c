//! Assets: the ledger's native asset, or a code together with the account
//! that issues it.
use vstd::prelude::*;
use vstd::string::StringSliceAdditionalSpecFns;
use crate::error::WalletError;
use crate::bytes::{array_of, lemma_array_of};
use crate::strkey::{account_key, account_of, AccountId};

verus! {

/// Most bytes that an asset code may have.
pub const MAX_CODE_LEN: usize = 12;

/// An asset code: one to twelve letters and digits, kept in twelve bytes
/// with zeros after the last one.
#[derive(Clone, Copy, Debug, PartialEq, Eq)]
pub struct AssetCode {
    pub len: u8,
    pub bytes: [u8; 12],
}

/// What a payment moves.
#[derive(Clone, Copy, Debug, PartialEq, Eq)]
pub enum Asset {
    /// The ledger's own currency. It has no issuer.
    Native,
    /// An asset issued by an account.
    Credit { code: AssetCode, issuer: AccountId },
}

/// The byte is an ASCII letter or digit.
pub open spec fn is_code_byte(b: u8) -> bool {
    (0x30 <= b <= 0x39) || (0x41 <= b <= 0x5a) || (0x61 <= b <= 0x7a)
}

/// The byte, with an ASCII lower-case letter made upper case.
pub open spec fn upper_byte(b: u8) -> u8 {
    if 0x61 <= b <= 0x7a {
        (b - 0x20) as u8
    } else {
        b
    }
}

/// The bytes, with every ASCII lower-case letter made upper case.
pub open spec fn upper_bytes(s: Seq<u8>) -> Seq<u8> {
    Seq::new(s.len(), |i: int| upper_byte(s[i]))
}

/// The bytes `XLM`, the code of the native asset.
pub open spec fn native_code() -> Seq<u8> {
    seq![0x58u8, 0x4cu8, 0x4du8]
}

/// The code denotes the native asset: it is `XLM` in any mix of cases.
pub open spec fn is_native_code(code: Seq<u8>) -> bool {
    upper_bytes(code) == native_code()
}

/// The bytes can be the code of an issued asset: one to twelve letters and
/// digits.
pub open spec fn is_asset_code(code: Seq<u8>) -> bool {
    &&& 1 <= code.len() <= MAX_CODE_LEN
    &&& forall|i: int| 0 <= i < code.len() ==> is_code_byte(#[trigger] code[i])
}

/// The twelve bytes that hold `code`: the code, then zeros.
pub open spec fn padded_code(code: Seq<u8>) -> Seq<u8> {
    Seq::new(
        12,
        |i: int|
            if i < code.len() {
                code[i]
            } else {
                0u8
            },
    )
}

/// The code that the given letters and digits make, in upper case.
pub open spec fn code_from(code: Seq<u8>) -> AssetCode {
    AssetCode { len: code.len() as u8, bytes: array_of::<12>(padded_code(upper_bytes(code))) }
}

/// The text of an optional string.
pub open spec fn text_of(s: Option<&str>) -> Option<Seq<char>> {
    match s {
        Some(t) => Some(t@),
        None => None,
    }
}

/// What [`resolve`] makes of a code and an optional issuer.
pub open spec fn resolved(code: Seq<char>, issuer: Option<Seq<char>>) -> Result<
    Asset,
    WalletError,
> {
    let code = vstd::utf8::encode_utf8(code);
    if is_native_code(code) {
        Ok(Asset::Native)
    } else {
        match issuer {
            None => Err(WalletError::InvalidAssetError),
            Some(text) => match account_of(text) {
                None => Err(WalletError::InvalidAccountIdError),
                Some(account) => if is_asset_code(code) {
                    Ok(Asset::Credit { code: code_from(code), issuer: account })
                } else {
                    Err(WalletError::InvalidAssetError)
                },
            },
        }
    }
}

impl AssetCode {
    /// The bytes of the code, without the padding.
    pub open spec fn text(self) -> Seq<u8> {
        self.bytes@.subrange(0, self.len as int)
    }

    /// The code is one to twelve letters and digits, and zeros follow it.
    pub open spec fn wf(self) -> bool {
        &&& 1 <= self.len <= MAX_CODE_LEN
        &&& forall|i: int| 0 <= i < self.len ==> is_code_byte(#[trigger] self.bytes@[i])
        &&& forall|i: int| self.len <= i < 12 ==> #[trigger] self.bytes@[i] == 0
    }

    /// Whether the code is well formed.
    pub fn is_well_formed(&self) -> (ok: bool)
        ensures
            ok == self.wf(),
    {
        if self.len < 1 || self.len > 12 {
            return false;
        }
        let mut i: usize = 0;
        while i < 12
            invariant
                i <= 12,
                1 <= self.len <= 12,
                forall|j: int| 0 <= j < i && j < self.len ==> is_code_byte(#[trigger] self.bytes@[j]),
                forall|j: int| self.len <= j < i ==> #[trigger] self.bytes@[j] == 0,
            decreases 12 - i,
        {
            let b: u8 = self.bytes[i];
            if i < self.len as usize {
                if !is_code_byte_exec(b) {
                    return false;
                }
            } else if b != 0 {
                return false;
            }
            i = i + 1;
        }
        true
    }

    /// Makes a code from letters and digits, in upper case.
    ///
    /// Returns the code exactly where the bytes are one to twelve letters
    /// and digits.
    pub fn from_bytes(code: &[u8]) -> (made: Option<AssetCode>)
        ensures
            made is Some <==> is_asset_code(code@),
            made matches Some(c) ==> c == code_from(code@),
            made matches Some(c) ==> {
                &&& c.wf()
                &&& c.len == code@.len()
                &&& c.bytes@ == padded_code(upper_bytes(code@))
                &&& c.text() == upper_bytes(code@)
            },
    {
        let n: usize = code.len();
        if n < 1 || n > MAX_CODE_LEN {
            return None;
        }
        let mut bytes: [u8; 12] = [0u8; 12];
        let mut i: usize = 0;
        while i < n
            invariant
                i <= n <= 12,
                n == code@.len(),
                forall|j: int| 0 <= j < i ==> is_code_byte(#[trigger] code@[j]),
                forall|j: int| 0 <= j < i ==> #[trigger] bytes@[j] == upper_byte(code@[j]),
                forall|j: int| i <= j < 12 ==> #[trigger] bytes@[j] == 0,
            decreases n - i,
        {
            let b: u8 = code[i];
            if !is_code_byte_exec(b) {
                return None;
            }
            bytes[i] = to_upper(b);
            i = i + 1;
        }
        let made = AssetCode { len: n as u8, bytes };
        proof {
            assert(made.bytes@ =~= padded_code(upper_bytes(code@)));
            lemma_array_of::<12>(made.bytes);
            assert(made.text() =~= upper_bytes(code@));
            assert forall|j: int| 0 <= j < made.len implies is_code_byte(#[trigger] made.bytes@[j]) by {
                assert(is_code_byte(code@[j]));
            }
        }
        Some(made)
    }
}

impl Asset {
    /// The asset is well formed: an issued asset has a well-formed code.
    pub open spec fn wf(self) -> bool {
        match self {
            Asset::Native => true,
            Asset::Credit { code, issuer } => code.wf(),
        }
    }

    /// Whether the asset is well formed.
    pub fn is_well_formed(&self) -> (ok: bool)
        ensures
            ok == self.wf(),
    {
        match self {
            Asset::Native => true,
            Asset::Credit { code, issuer } => code.is_well_formed(),
        }
    }
}

/// Whether the byte is an ASCII letter or digit.
pub fn is_code_byte_exec(b: u8) -> (ok: bool)
    ensures
        ok == is_code_byte(b),
{
    (0x30 <= b && b <= 0x39) || (0x41 <= b && b <= 0x5a) || (0x61 <= b && b <= 0x7a)
}

/// The byte, with an ASCII lower-case letter made upper case.
pub fn to_upper(b: u8) -> (up: u8)
    ensures
        up == upper_byte(b),
        is_code_byte(b) ==> is_code_byte(up),
{
    if 0x61 <= b && b <= 0x7a {
        b - 0x20
    } else {
        b
    }
}

/// Whether the code denotes the native asset.
pub fn is_native(code: &[u8]) -> (native: bool)
    ensures
        native == is_native_code(code@),
{
    if code.len() != 3 {
        proof {
            assert(upper_bytes(code@).len() == code@.len());
            assert(native_code().len() == 3);
        }
        return false;
    }
    let native = to_upper(code[0]) == 0x58 && to_upper(code[1]) == 0x4c && to_upper(code[2]) == 0x4d;
    proof {
        let up = upper_bytes(code@);
        if native {
            assert(up =~= native_code());
        } else {
            assert(up[0] == upper_byte(code@[0]));
            assert(up[1] == upper_byte(code@[1]));
            assert(up[2] == upper_byte(code@[2]));
            assert(native_code()[0] == 0x58 && native_code()[1] == 0x4c && native_code()[2] == 0x4d);
        }
    }
    native
}

/// Calls `stellar_sdk::types::Asset::new` and tells whether it accepted.
///
/// Trusted: the constructor accepts exactly an issuer that the crate's
/// `StrKey` takes for an account identifier (56 bytes that decode to a
/// payload of 32 bytes) together with a code that matches
/// `^[a-zA-Z0-9]{1,12}$`.
#[verifier::external_body]
pub(crate) fn sdk_accepts_asset(code: &str, issuer: &str) -> (accepted: bool)
    ensures
        accepted == (account_key(issuer@) is Some && is_asset_code(code.spec_bytes())),
{
    stellar_sdk::types::Asset::new(code.to_string(), issuer.to_string()).is_ok()
}

/// Resolves an asset code and an optional issuer to an asset.
///
/// * A code that reads `XLM` in any mix of cases is the native asset,
///   whatever the issuer.
/// * Any other code needs an issuer: without one the result is
///   [`WalletError::InvalidAssetError`].
/// * An issuer that is not an account identifier gives
///   [`WalletError::InvalidAccountIdError`].
/// * With a valid issuer, a code of one to twelve letters and digits gives
///   the issued asset, its code in upper case; any other code gives
///   [`WalletError::InvalidAssetError`].
pub fn resolve(code: &str, issuer: Option<&str>) -> (asset: Result<Asset, WalletError>)
    ensures
        asset == resolved(code@, text_of(issuer)),
        asset matches Ok(a) ==> a.wf(),
        is_native_code(code.spec_bytes()) ==> asset == Ok::<Asset, WalletError>(Asset::Native),
        !is_native_code(code.spec_bytes()) && issuer is None ==> asset == Err::<Asset, WalletError>(
            WalletError::InvalidAssetError,
        ),
        issuer matches Some(text) ==> (!is_native_code(code.spec_bytes()) && account_of(text@) is None
            ==> asset == Err::<Asset, WalletError>(WalletError::InvalidAccountIdError)),
{
    let bytes = code.as_bytes();
    if is_native(bytes) {
        return Ok(Asset::Native);
    }
    let text = match issuer {
        Some(text) => text,
        None => {
            return Err(WalletError::InvalidAssetError);
        },
    };
    let issuer_id = match AccountId::parse(text) {
        Some(id) => id,
        None => {
            return Err(WalletError::InvalidAccountIdError);
        },
    };
    if !sdk_accepts_asset(code, text) {
        return Err(WalletError::InvalidAssetError);
    }
    match AssetCode::from_bytes(bytes) {
        Some(c) => Ok(Asset::Credit { code: c, issuer: issuer_id }),
        None => Err(WalletError::InvalidAssetError),
    }
}

} // verus!
