//! Configuration extraction: finding the USDT wallet size among the
//! configured execution balances.

use vstd::prelude::*;
use crate::dec::{Dec, SCALE};

verus! {

/// One configured asset balance: the asset's exchange name as raw bytes and
/// its total value.
#[derive(Clone, Debug)]
pub struct Balance {
    /// Asset name as the exchange spells it.
    pub asset: Vec<u8>,
    /// Total balance of the asset.
    pub total: Dec,
}

/// ASCII lowercase of one byte.
pub open spec fn lower_byte(b: u8) -> u8 {
    if 65 <= b <= 90 {
        (b + 32) as u8
    } else {
        b
    }
}

/// Whether a name spells "usdt", ignoring ASCII case.
pub open spec fn name_is_usdt(s: Seq<u8>) -> bool {
    &&& s.len() == 4
    &&& lower_byte(s[0]) == 117u8
    &&& lower_byte(s[1]) == 115u8
    &&& lower_byte(s[2]) == 100u8
    &&& lower_byte(s[3]) == 116u8
}

/// Total of the first USDT balance, if one is configured.
pub open spec fn first_usdt_total(balances: Seq<Balance>) -> Option<Dec>
    decreases balances.len(),
{
    if balances.len() == 0 {
        None
    } else if name_is_usdt(balances[0].asset@) {
        Some(balances[0].total)
    } else {
        first_usdt_total(balances.drop_first())
    }
}

/// Whether a name spells "usdt", ignoring ASCII case.
fn is_usdt_name(name: &Vec<u8>) -> (r: bool)
    ensures
        r == name_is_usdt(name@),
{
    if name.len() != 4 {
        return false;
    }
    let b0: u8 = if 65 <= name[0] && name[0] <= 90 {
        name[0] + 32
    } else {
        name[0]
    };
    let b1: u8 = if 65 <= name[1] && name[1] <= 90 {
        name[1] + 32
    } else {
        name[1]
    };
    let b2: u8 = if 65 <= name[2] && name[2] <= 90 {
        name[2] + 32
    } else {
        name[2]
    };
    let b3: u8 = if 65 <= name[3] && name[3] <= 90 {
        name[3] + 32
    } else {
        name[3]
    };
    b0 == 117 && b1 == 115 && b2 == 100 && b3 == 116
}

/// Extracts the USDT wallet size from the configured balances: the total
/// of the first balance whose asset spells "usdt" (ignoring case), or the
/// documented fallback of $10,000 when none is configured.
pub fn extract_usdt_wallet_size(balances: &Vec<Balance>) -> (r: Dec)
    ensures
        first_usdt_total(balances@) matches Some(total) ==> r == total,
        first_usdt_total(balances@) is None ==> r.units == 10_000int * SCALE as int,
{
    let mut i: usize = 0;
    proof {
        assert(balances@.skip(0) =~= balances@);
    }
    while i < balances.len()
        invariant
            0 <= i <= balances@.len(),
            first_usdt_total(balances@) == first_usdt_total(balances@.skip(i as int)),
        decreases balances@.len() - i,
    {
        proof {
            assert(balances@.skip(i as int)[0] == balances@[i as int]);
            assert(balances@.skip(i as int).drop_first() =~= balances@.skip(i as int + 1));
        }
        if is_usdt_name(&balances[i].asset) {
            return balances[i].total;
        }
        i = i + 1;
    }
    proof {
        assert(balances@.skip(balances@.len() as int) =~= Seq::<Balance>::empty());
    }
    Dec::from_int(10_000)
}

} // verus!
