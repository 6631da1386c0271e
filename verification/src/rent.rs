use vstd::prelude::*;
use crate::bytes::le_u64;
use crate::fixture::FixtureSysvar;
use crate::ids::rent_sysvar_id;

verus! {

/// The network rent configuration, as the rent sysvar holds it.
#[derive(Clone, Copy, Debug)]
pub struct Rent {
    /// Rental rate in lamports per byte.
    pub lamports_per_byte: u64,
    /// The little-endian bytes of the exemption threshold, a float.
    pub exemption_threshold: [u8; 8],
    pub burn_percent: u8,
}

/// Largest account data length that a minimum balance is given for (10 MiB).
pub const MAX_PERMITTED_DATA_LENGTH: u64 = 10485760;

/// Bytes counted for every account on top of its data.
pub const ACCOUNT_STORAGE_OVERHEAD: u64 = 128;

/// The exemption threshold 1.0, as little-endian float bytes.
pub open spec fn threshold_one() -> Seq<u8> {
    seq![0u8, 0, 0, 0, 0, 0, 240, 63]
}

/// The exemption threshold 2.0, as little-endian float bytes.
pub open spec fn threshold_two() -> Seq<u8> {
    seq![0u8, 0, 0, 0, 0, 0, 0, 64]
}

/// The rent-exempt minimum balance for a threshold other than 1.0 and 2.0,
/// which `solana_rent` computes in floating point.
pub uninterp spec fn scaled_minimum_balance(lamports_per_byte: u64, exemption_threshold: Seq<u8>, data_len: usize) -> u64;

/// What `solana_rent::Rent::bincode` decoding of sysvar bytes yields.
pub uninterp spec fn decoded_rent(data: Seq<u8>) -> Option<Rent>;

impl Rent {
    /// The rent-exempt minimum balance for `len` data bytes, or `None` where
    /// the length or the rate is out of the permitted range.
    pub open spec fn minimum_balance_of(self, len: int) -> Option<int> {
        let t = self.exemption_threshold@;
        let lpb = self.lamports_per_byte;
        if len > MAX_PERMITTED_DATA_LENGTH {
            None
        } else if t == threshold_one() {
            if lpb > 1_759_197_129_867 { None } else { Some((ACCOUNT_STORAGE_OVERHEAD + len) * lpb) }
        } else if t == threshold_two() {
            if lpb > 879_598_564_933 { None } else { Some(2 * (ACCOUNT_STORAGE_OVERHEAD + len) * lpb) }
        } else {
            Some(scaled_minimum_balance(lpb, t, len as usize) as int)
        }
    }

    /// The minimum balance for `len` bytes is defined and computing it
    /// cannot overflow.
    pub open spec fn minimum_balance_defined(self, len: int) -> bool {
        &&& self.minimum_balance_of(len) is Some
        &&& self.exemption_threshold@ != threshold_one() && self.exemption_threshold@ != threshold_two()
            ==> (ACCOUNT_STORAGE_OVERHEAD + len) * self.lamports_per_byte <= u64::MAX
    }

    /// The minimum balance of an account with `len` data bytes to be rent exempt.
    pub fn minimum_balance(&self, len: usize) -> (r: u64)
        requires
            self.minimum_balance_defined(len as int),
        ensures
            self.minimum_balance_of(len as int) == Some(r as int),
    {
        match try_minimum_balance(self, len) {
            Some(v) => v,
            None => {
                proof {
                    assert(false);
                }
                0
            },
        }
    }

    /// Whether `minimum_balance` is defined for `len` bytes.
    pub fn minimum_balance_is_defined(&self, len: usize) -> (r: bool)
        ensures
            r == self.minimum_balance_defined(len as int),
    {
        let lpb = self.lamports_per_byte;
        if len as u64 > MAX_PERMITTED_DATA_LENGTH || len > 10485760 {
            return false;
        }
        let one = self.exemption_threshold[0] == 0 && self.exemption_threshold[1] == 0
            && self.exemption_threshold[2] == 0 && self.exemption_threshold[3] == 0
            && self.exemption_threshold[4] == 0 && self.exemption_threshold[5] == 0
            && self.exemption_threshold[6] == 240 && self.exemption_threshold[7] == 63;
        let two = self.exemption_threshold[0] == 0 && self.exemption_threshold[1] == 0
            && self.exemption_threshold[2] == 0 && self.exemption_threshold[3] == 0
            && self.exemption_threshold[4] == 0 && self.exemption_threshold[5] == 0
            && self.exemption_threshold[6] == 0 && self.exemption_threshold[7] == 64;
        proof {
            assert(one == (self.exemption_threshold@ =~= threshold_one()));
            assert(two == (self.exemption_threshold@ =~= threshold_two()));
        }
        if one {
            lpb <= 1_759_197_129_867
        } else if two {
            lpb <= 879_598_564_933
        } else {
            let units = ACCOUNT_STORAGE_OVERHEAD + len as u64;
            match units.checked_mul(lpb) {
                Some(_) => true,
                None => false,
            }
        }
    }

    /// A smaller length keeps the minimum balance defined.
    pub proof fn lemma_minimum_balance_defined_monotone(self, shorter: int, longer: int)
        requires
            0 <= shorter <= longer,
            self.minimum_balance_defined(longer),
        ensures
            self.minimum_balance_defined(shorter),
    {
        let lpb = self.lamports_per_byte as int;
        assert((ACCOUNT_STORAGE_OVERHEAD + shorter) * lpb <= (ACCOUNT_STORAGE_OVERHEAD + longer) * lpb)
            by (nonlinear_arith)
            requires
                0 <= shorter <= longer,
                0 <= lpb,
        ;
    }
}

impl Default for Rent {
    /// The default rent configuration of `solana_rent`.
    fn default() -> (r: Self)
        ensures
            is_default_rent(r),
    {
        default_rent()
    }
}

/// Calls `solana_rent::Rent::default()`, whose source sets 6960 lamports per
/// byte, the threshold bytes of 1.0 and a burn percent of 50.
#[verifier::external_body]
fn default_rent() -> (r: Rent)
    ensures
        r.lamports_per_byte == 6960,
        r.exemption_threshold@ == threshold_one(),
        r.burn_percent == 50,
{
    let d = solana_rent::Rent::default();
    #[allow(deprecated)]
    Rent {
        lamports_per_byte: d.lamports_per_byte,
        exemption_threshold: d.exemption_threshold,
        burn_percent: d.burn_percent,
    }
}

/// Calls `solana_rent::Rent::try_minimum_balance`. Its source returns `None`
/// above 10 MiB and for a rate above the bound of the thresholds 1.0 and 2.0,
/// multiplies out exactly for those two thresholds, and otherwise scales in
/// floating point, which the contract names. Where the float branch would
/// overflow its integer product the call is left out.
#[verifier::external_body]
fn try_minimum_balance(rent: &Rent, len: usize) -> (r: Option<u64>)
    requires
        len <= MAX_PERMITTED_DATA_LENGTH && rent.exemption_threshold@ != threshold_one()
            && rent.exemption_threshold@ != threshold_two()
            ==> (ACCOUNT_STORAGE_OVERHEAD + len) * rent.lamports_per_byte <= u64::MAX,
    ensures
        r matches Some(v) ==> rent.minimum_balance_of(len as int) == Some(v as int),
        r is None ==> rent.minimum_balance_of(len as int) is None,
        len <= MAX_PERMITTED_DATA_LENGTH && rent.exemption_threshold@ != threshold_one()
            && rent.exemption_threshold@ != threshold_two()
            ==> r == Some(scaled_minimum_balance(rent.lamports_per_byte, rent.exemption_threshold@, len)),
{
    #[allow(deprecated)]
    let r = solana_rent::Rent {
        lamports_per_byte: rent.lamports_per_byte,
        exemption_threshold: rent.exemption_threshold,
        burn_percent: rent.burn_percent,
    };
    r.try_minimum_balance(len)
}

/// Calls `bincode::deserialize::<solana_rent::Rent>` on sysvar bytes; the
/// result is named by `decoded_rent`. Bincode reads the rate as a
/// little-endian `u64`, the eight threshold bytes and the burn percent, and
/// allows bytes after them: the bytes decode exactly when there are at
/// least 17.
#[verifier::external_body]
fn decode_rent(data: &[u8]) -> (r: Option<Rent>)
    ensures
        r == decoded_rent(data@),
        r is Some <==> data@.len() >= 17,
        r matches Some(x) ==> x.lamports_per_byte == le_u64(data@, 0)
            && x.exemption_threshold@ == data@.subrange(8, 16) && x.burn_percent == data@[16],
{
    match bincode::deserialize::<solana_rent::Rent>(data) {
        #[allow(deprecated)]
        Ok(d) => Some(Rent {
            lamports_per_byte: d.lamports_per_byte,
            exemption_threshold: d.exemption_threshold,
            burn_percent: d.burn_percent,
        }),
        Err(_) => None,
    }
}

/// The rent sysvar's index among `sysvars`: the first entry with the rent id.
pub open spec fn rent_sysvar_index(sysvars: Seq<FixtureSysvar>) -> Option<int> {
    if exists|i: int| 0 <= i < sysvars.len() && sysvars[i].sysvar_id@ == crate::ids::rent_sysvar_key() {
        Some(choose|i: int| 0 <= i < sysvars.len() && sysvars[i].sysvar_id@ == crate::ids::rent_sysvar_key()
            && forall|j: int| 0 <= j < i ==> sysvars[j].sysvar_id@ != crate::ids::rent_sysvar_key())
    } else {
        None
    }
}

/// The default rent configuration.
pub open spec fn is_default_rent(r: Rent) -> bool {
    &&& r.lamports_per_byte == 6960
    &&& r.exemption_threshold@ == threshold_one()
    &&& r.burn_percent == 50
}

/// The rent-exempt minimum for `len` data bytes under the default rent:
/// 6960 lamports for each byte and for each of the 128 bytes of overhead.
pub open spec fn default_minimum_balance(len: int) -> int {
    (ACCOUNT_STORAGE_OVERHEAD + len) * 6960
}

/// Under the default rent the minimum balance is defined for every
/// permitted length and is `default_minimum_balance`.
pub proof fn lemma_default_minimum_balance(r: Rent, len: int)
    requires
        is_default_rent(r),
        0 <= len <= MAX_PERMITTED_DATA_LENGTH,
    ensures
        r.minimum_balance_defined(len),
        r.minimum_balance_of(len) == Some(default_minimum_balance(len)),
{
}

/// The rent configuration of a fixture: the first rent sysvar decoded, or
/// the default where there is none or it does not decode.
pub open spec fn is_fixture_rent(r: Rent, sysvars: Seq<FixtureSysvar>) -> bool {
    match rent_sysvar_index(sysvars) {
        Some(i) => match decoded_rent(sysvars[i].data@) {
            Some(d) => r == d,
            None => is_default_rent(r),
        },
        None => is_default_rent(r),
    }
}

/// The rent configuration that the fixture's sysvars give.
pub fn extract_rent(sysvars: &[FixtureSysvar]) -> (r: Rent)
    ensures
        is_fixture_rent(r, sysvars@),
        (forall|i: int| 0 <= i < sysvars@.len() ==> (#[trigger] sysvars@[i]).sysvar_id@ != crate::ids::rent_sysvar_key())
            ==> r.lamports_per_byte == 6960 && r.exemption_threshold@ == threshold_one() && r.burn_percent == 50,
        forall|i: int| 0 <= i < sysvars@.len() && (#[trigger] sysvars@[i]).sysvar_id@ == crate::ids::rent_sysvar_key()
            && (forall|j: int| 0 <= j < i ==> sysvars@[j].sysvar_id@ != crate::ids::rent_sysvar_key()) ==> {
                let d = sysvars@[i].data@;
                if d.len() >= 17 {
                    &&& r.lamports_per_byte == le_u64(d, 0)
                    &&& r.exemption_threshold@ == d.subrange(8, 16)
                    &&& r.burn_percent == d[16]
                } else {
                    r.lamports_per_byte == 6960 && r.exemption_threshold@ == threshold_one() && r.burn_percent == 50
                }
            },
{
    let rent_id = rent_sysvar_id();
    let mut i: usize = 0;
    while i < sysvars.len()
        invariant
            i <= sysvars@.len(),
            rent_id@ == crate::ids::rent_sysvar_key(),
            forall|j: int| 0 <= j < i ==> sysvars@[j].sysvar_id@ != crate::ids::rent_sysvar_key(),
        decreases sysvars@.len() - i,
    {
        if sysvars[i].sysvar_id == rent_id {
            proof {
                let k = choose|k: int| 0 <= k < sysvars@.len() && sysvars@[k].sysvar_id@ == crate::ids::rent_sysvar_key()
                    && forall|j: int| 0 <= j < k ==> sysvars@[j].sysvar_id@ != crate::ids::rent_sysvar_key();
                assert(k == i as int) by {
                    if k < i as int {
                    } else if k > i as int {
                        assert(sysvars@[i as int].sysvar_id@ != crate::ids::rent_sysvar_key());
                    }
                }
            }
            let r = match decode_rent(sysvars[i].data.as_slice()) {
                Some(d) => d,
                None => Rent::default(),
            };
            proof {
                assert forall|k: int| 0 <= k < sysvars@.len() && (#[trigger] sysvars@[k]).sysvar_id@ == crate::ids::rent_sysvar_key()
                    && (forall|j: int| 0 <= j < k ==> sysvars@[j].sysvar_id@ != crate::ids::rent_sysvar_key())
                    implies k == i as int by {
                    if k > i as int {
                        assert(sysvars@[i as int].sysvar_id@ != crate::ids::rent_sysvar_key());
                    }
                }
            }
            return r;
        }
        i = i + 1;
    }
    Rent::default()
}

impl Rent {
    /// For the thresholds 1.0 and 2.0, which are computed exactly, more data
    /// never lowers the rent-exempt minimum.
    pub proof fn lemma_minimum_balance_monotone(self, shorter: int, longer: int)
        requires
            0 <= shorter <= longer,
            self.exemption_threshold@ == threshold_one() || self.exemption_threshold@ == threshold_two(),
            self.minimum_balance_of(longer) is Some,
        ensures
            self.minimum_balance_of(shorter) is Some,
            self.minimum_balance_of(shorter)->0 <= self.minimum_balance_of(longer)->0,
    {
        let lpb = self.lamports_per_byte as int;
        assert((ACCOUNT_STORAGE_OVERHEAD + shorter) * lpb <= (ACCOUNT_STORAGE_OVERHEAD + longer) * lpb)
            by (nonlinear_arith)
            requires
                0 <= shorter <= longer,
                0 <= lpb,
        ;
        assert(2 * (ACCOUNT_STORAGE_OVERHEAD + shorter) * lpb <= 2 * (ACCOUNT_STORAGE_OVERHEAD + longer) * lpb)
            by (nonlinear_arith)
            requires
                0 <= shorter <= longer,
                0 <= lpb,
        ;
    }
}

impl Rent {
    /// A defined rent-exempt minimum fits in a `u64`.
    pub proof fn lemma_minimum_balance_fits(self, len: int)
        requires
            0 <= len,
        ensures
            self.minimum_balance_of(len) matches Some(v) ==> 0 <= v <= u64::MAX,
    {
        let lpb = self.lamports_per_byte as int;
        if 0 <= len <= MAX_PERMITTED_DATA_LENGTH {
            if lpb <= 1_759_197_129_867 {
                assert((ACCOUNT_STORAGE_OVERHEAD + len) * lpb <= (128 + 10485760) * 1_759_197_129_867int)
                    by (nonlinear_arith)
                    requires
                        0 <= len <= 10485760,
                        0 <= lpb <= 1_759_197_129_867,
                ;
            }
            if lpb <= 879_598_564_933 {
                assert(2 * (ACCOUNT_STORAGE_OVERHEAD + len) * lpb <= 2 * (128 + 10485760) * 879_598_564_933int)
                    by (nonlinear_arith)
                    requires
                        0 <= len <= 10485760,
                        0 <= lpb <= 879_598_564_933,
                ;
            }
        }
    }
}

} // verus!
