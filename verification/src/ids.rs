//! Numbers of group managers and openers.

use vstd::prelude::*;

verus! {

/// Which of the three group managers a manager is.
#[derive(Clone, Copy, Debug, PartialEq, Eq, Structural)]
pub enum GmId {
    One,
    Two,
    Three,
}

/// Which of the three openers an opener is.
#[derive(Clone, Copy, Debug, PartialEq, Eq, Structural)]
pub enum OpenerId {
    One,
    Two,
    Three,
}

/// The group manager that a number names: counted modulo four, one to three
/// name the managers and zero names none.
pub open spec fn spec_gm_id(num: u8) -> Option<GmId> {
    if num % 4 == 1 {
        Some(GmId::One)
    } else if num % 4 == 2 {
        Some(GmId::Two)
    } else if num % 4 == 3 {
        Some(GmId::Three)
    } else {
        None
    }
}

/// The opener that a number names: counted modulo four, one to three name the
/// openers and zero names none.
pub open spec fn spec_opener_id(num: u8) -> Option<OpenerId> {
    if num % 4 == 1 {
        Some(OpenerId::One)
    } else if num % 4 == 2 {
        Some(OpenerId::Two)
    } else if num % 4 == 3 {
        Some(OpenerId::Three)
    } else {
        None
    }
}

/// The group manager that `num` names, if any.
pub fn gm_id(num: u8) -> (id: Option<GmId>)
    ensures
        id == spec_gm_id(num),
        id is None <==> num % 4 == 0,
{
    let res = match num % 4 {
        1 => GmId::One,
        2 => GmId::Two,
        3 => GmId::Three,
        _ => return None,
    };
    Some(res)
}

/// The opener that `num` names, if any.
pub fn opener_id(num: u8) -> (id: Option<OpenerId>)
    ensures
        id == spec_opener_id(num),
        id is None <==> num % 4 == 0,
{
    let res = match num % 4 {
        1 => OpenerId::One,
        2 => OpenerId::Two,
        3 => OpenerId::Three,
        _ => return None,
    };
    Some(res)
}

/// The group manager of a manager whose number among the domains is `index`:
/// the number is taken as a byte, as the service does.
pub fn gm_id_from_index(index: usize) -> (id: Option<GmId>)
    ensures
        id == spec_gm_id(index as u8),
{
    gm_id(index as u8)
}

/// The opener of an opener whose number among the domains is `index`: the
/// number taken as a byte, plus one.
pub fn opener_id_from_index(index: usize) -> (id: Option<OpenerId>)
    requires
        (index as u8) < u8::MAX,
    ensures
        id == spec_opener_id(((index as u8) + 1) as u8),
{
    let num: u8 = index as u8;
    opener_id(num + 1)
}

/// Numbers four apart name the same group manager.
pub proof fn lemma_gm_id_period(num: u8)
    requires
        num + 4 <= u8::MAX,
    ensures
        spec_gm_id(num) == spec_gm_id((num + 4) as u8),
{
}

/// Numbers four apart name the same opener.
pub proof fn lemma_opener_id_period(num: u8)
    requires
        num + 4 <= u8::MAX,
    ensures
        spec_opener_id(num) == spec_opener_id((num + 4) as u8),
{
}

/// Distinct numbers from one to three name distinct group managers.
pub proof fn lemma_gm_id_injective(a: u8, b: u8)
    requires
        1 <= a <= 3,
        1 <= b <= 3,
        a != b,
    ensures
        spec_gm_id(a) is Some,
        spec_gm_id(a) != spec_gm_id(b),
{
}

} // verus!
