use vstd::prelude::*;

use crate::error::ContractError;
use crate::model::StatusView;
use crate::model::VCStatus;
use crate::state::has_status;
use crate::state::lemma_status_index;
use crate::state::lemma_status_upsert;
use crate::state::status_of;
use crate::state::status_upsert;
use crate::state::statuses_view;

verus! {

/// The index of the stored status entry for `vc_id`, if any.
pub(crate) fn find_status(statuses: &Vec<(String, VCStatus)>, vc_id: &String) -> (r: Option<usize>)
    ensures
        match r {
            Some(i) => i < statuses.len() && statuses@[i as int].0@ == vc_id@,
            None => !has_status(statuses_view(statuses@), vc_id@),
        },
{
    let mut i: usize = 0;
    while i < statuses.len()
        invariant
            i <= statuses.len(),
            forall|k: int| 0 <= k < i ==> statuses@[k].0@ != vc_id@,
        decreases statuses.len() - i,
    {
        if statuses[i].0 == *vc_id {
            return Some(i);
        }
        i = i + 1;
    }
    proof {
        assert(!has_status(statuses_view(statuses@), vc_id@)) by {
            if has_status(statuses_view(statuses@), vc_id@) {
                let k = choose|k: int|
                    0 <= k < statuses_view(statuses@).len() && statuses_view(statuses@)[k].0
                        == vc_id@;
                assert(statuses@[k].0@ == vc_id@);
            }
        }
    }
    None
}

/// Upsert one status entry.
pub(crate) fn set_status(statuses: &mut Vec<(String, VCStatus)>, vc_id: &String, st: VCStatus)
    requires
        forall|p: int, q: int|
            0 <= p < q < old(statuses)@.len() ==> old(statuses)@[p].0@ != old(statuses)@[q].0@,
    ensures
        statuses_view(final(statuses)@) == status_upsert(
            statuses_view(old(statuses)@),
            vc_id@,
            st@,
        ),
{
    let ghost pre = statuses_view(old(statuses)@);
    proof {
        assert forall|p: int, q: int| 0 <= p < q < pre.len() implies pre[p].0 != pre[q].0 by {
            assert(pre[p].0 == old(statuses)@[p].0@);
            assert(pre[q].0 == old(statuses)@[q].0@);
        }
    }
    match find_status(statuses, vc_id) {
        Some(i) => {
            statuses.remove(i);
            statuses.insert(i, (vc_id.clone(), st));
            proof {
                lemma_status_index(pre, vc_id@, i as int);
                assert(statuses_view(statuses@) =~= pre.update(i as int, (vc_id@, st@)));
            }
        },
        None => {
            statuses.push((vc_id.clone(), st));
            proof {
                assert(statuses_view(statuses@) =~= pre.push((vc_id@, st@)));
            }
        },
    }
}

/// Flip the status of `vc_id` from `Valid` to `Revoked(date)`: the only
/// legal status transition. Any other current status — including a missing
/// entry — is refused.
pub fn revoke_vc(statuses: &mut Vec<(String, VCStatus)>, vc_id: &String, date: String) -> (r:
    Result<(), ContractError>)
    requires
        forall|p: int, q: int|
            0 <= p < q < old(statuses)@.len() ==> old(statuses)@[p].0@ != old(statuses)@[q].0@,
        forall|i: int|
            0 <= i < old(statuses)@.len() ==> (#[trigger] old(statuses)@[i]).1@
                != StatusView::Invalid,
    ensures
        forall|p: int, q: int|
            0 <= p < q < final(statuses)@.len() ==> final(statuses)@[p].0@
                != final(statuses)@[q].0@,
        forall|i: int|
            0 <= i < final(statuses)@.len() ==> (#[trigger] final(statuses)@[i]).1@
                != StatusView::Invalid,
        match r {
            Ok(()) => status_of(statuses_view(old(statuses)@), vc_id@) is Valid && statuses_view(
                final(statuses)@,
            ) == status_upsert(
                statuses_view(old(statuses)@),
                vc_id@,
                StatusView::Revoked(date@),
            ),
            Err(e) => e == ContractError::VCAlreadyRevoked && !(status_of(
                statuses_view(old(statuses)@),
                vc_id@,
            ) is Valid) && final(statuses)@ == old(statuses)@,
        },
{
    let ghost pre = statuses_view(old(statuses)@);
    proof {
        assert forall|p: int, q: int| 0 <= p < q < pre.len() implies pre[p].0 != pre[q].0 by {
            assert(pre[p].0 == old(statuses)@[p].0@);
            assert(pre[q].0 == old(statuses)@[q].0@);
        }
        assert forall|i: int| 0 <= i < pre.len() implies (#[trigger] pre[i]).1
            != StatusView::Invalid by {
            assert(pre[i].1 == old(statuses)@[i].1@);
        }
    }
    let current = find_status(statuses, vc_id);
    let valid = match current {
        Some(i) => match statuses[i].1 {
            VCStatus::Valid => true,
            _ => false,
        },
        None => false,
    };
    if !valid {
        proof {
            match current {
                Some(i) => {
                    lemma_status_index(pre, vc_id@, i as int);
                    assert(status_of(pre, vc_id@) == pre[i as int].1);
                },
                None => {
                    assert(status_of(pre, vc_id@) == StatusView::Invalid);
                },
            }
        }
        return Err(ContractError::VCAlreadyRevoked);
    }
    proof {
        let i = current->Some_0;
        lemma_status_index(pre, vc_id@, i as int);
        assert(status_of(pre, vc_id@) == pre[i as int].1);
        lemma_status_upsert(pre, vc_id@, StatusView::Revoked(date@));
    }
    set_status(statuses, vc_id, VCStatus::Revoked(date));
    proof {
        let out = statuses_view(statuses@);
        assert forall|p: int, q: int|
            0 <= p < q < statuses@.len() implies statuses@[p].0@ != statuses@[q].0@ by {
            assert(out[p].0 == statuses@[p].0@);
            assert(out[q].0 == statuses@[q].0@);
        }
        assert forall|i: int| 0 <= i < statuses@.len() implies (#[trigger] statuses@[i]).1@
            != StatusView::Invalid by {
            assert(out[i].1 == statuses@[i].1@);
        }
    }
    Ok(())
}

} // verus!
