//! Changes to the configuration of Codex: prepared, shown, and applied once
//! they are confirmed.

use crate::codex_document;
use crate::codex_document::{
    apply_custom_fields, clear_custom_provider_fields, effective_model, effective_provider_model,
    normalize_inline_model_providers, parse_config_document, remove_legacy_openai_relay_provider,
    Entries,
};
use crate::codex_files;
use crate::codex_files::{
    captured_files, config_text, read_config_text, CodexFiles, Commit, CommitView, FileReads,
    FilesView,
};
use crate::codex_preview;
use crate::codex_preview::{
    auth_file, bytes_view, catalog_bytes, describe_changes, managed_custom_preview, mask_secret,
    masked, merged_headers, parse_auth_object, render_api_key_auth, render_token_auth,
    service_headers, without_secrets,
};
use crate::headers;
use crate::json;
use crate::json::{Json, JsonView};
use crate::models::{
    is_personal_access_token_credential, AppError, CodexAuthCredential, CodexAuthTokens,
    CredentialView, ErrorView, ProviderApiType, ProviderProfile,
};
use crate::proxy::ActivationTarget;
use crate::reasoning::is_among;
use crate::text;
use crate::text::same_text;
use crate::toml;
use crate::toml::{document_text, document_view};
use vstd::prelude::*;

verus! {

/// How long a prepared change is kept, in nanoseconds.
pub const PENDING_NANOS: u64 = 600000000000;

/// How many prepared changes are kept.
pub const MAX_PENDING: usize = 32;

/// A change that was prepared and waits to be confirmed.
pub struct PendingPatch {
    pub id: String,
    pub rendered: String,
    pub auth_rendered: Vec<u8>,
    pub catalog: Option<Vec<u8>>,
    pub original: CodexFiles,
    pub created_at: u64,
}

/// A prepared change as a mathematical value.
pub struct PendingView {
    pub id: Seq<char>,
    pub rendered: Seq<char>,
    pub auth_rendered: Seq<u8>,
    pub catalog: Option<Seq<u8>>,
    pub original: FilesView,
    pub created_at: u64,
}

impl View for PendingPatch {
    type V = PendingView;

    open spec fn view(&self) -> PendingView {
        PendingView {
            id: self.id@,
            rendered: self.rendered@,
            auth_rendered: self.auth_rendered@,
            catalog: bytes_view(self.catalog),
            original: self.original@,
            created_at: self.created_at,
        }
    }
}

// ---------------------------------------------------------------------------
// The prepared changes
// ---------------------------------------------------------------------------

/// The changes that wait to be confirmed, in the order in which they were
/// prepared.
pub struct ConfigManager {
    pending: Vec<PendingPatch>,
}

/// Whether a prepared change is still kept at a moment.
pub open spec fn is_live(patch: PendingView, now: u64) -> bool {
    now - patch.created_at < PENDING_NANOS
}

/// The changes that are still kept at a moment.
pub open spec fn live_patches(pending: Seq<PendingView>, now: u64) -> Seq<PendingView>
    decreases pending.len(),
{
    if pending.len() == 0 {
        Seq::empty()
    } else {
        let earlier = live_patches(pending.drop_last(), now);
        if is_live(pending.last(), now) {
            earlier.push(pending.last())
        } else {
            earlier
        }
    }
}

/// Where the first of the oldest changes stands.
pub open spec fn oldest(pending: Seq<PendingView>) -> int
    decreases pending.len(),
{
    if pending.len() <= 1 {
        0
    } else {
        let earlier = oldest(pending.drop_last());
        if pending.last().created_at < pending[earlier].created_at {
            pending.len() - 1
        } else {
            earlier
        }
    }
}

/// The changes but for those with an identifier.
pub open spec fn without_id(pending: Seq<PendingView>, id: Seq<char>) -> Seq<PendingView>
    decreases pending.len(),
{
    if pending.len() == 0 {
        Seq::empty()
    } else {
        let earlier = without_id(pending.drop_last(), id);
        if pending.last().id == id {
            earlier
        } else {
            earlier.push(pending.last())
        }
    }
}

/// The change with an identifier, where there is one.
pub open spec fn patch_with_id(pending: Seq<PendingView>, id: Seq<char>) -> Option<PendingView>
    decreases pending.len(),
{
    if pending.len() == 0 {
        None
    } else if pending.last().id == id {
        Some(pending.last())
    } else {
        patch_with_id(pending.drop_last(), id)
    }
}

/// The changes once another one was prepared. Those that are too old are let
/// go of, and the oldest where there are too many.
pub open spec fn kept_with(pending: Seq<PendingView>, patch: PendingView) -> Seq<PendingView> {
    let live = live_patches(pending, patch.created_at);
    let room = if live.len() >= MAX_PENDING {
        live.remove(oldest(live))
    } else {
        live
    };
    without_id(room, patch.id).push(patch)
}

/// The changes as mathematical values.
pub open spec fn patch_views(pending: Seq<PendingPatch>) -> Seq<PendingView> {
    pending.map_values(|patch: PendingPatch| patch@)
}

impl View for ConfigManager {
    type V = Seq<PendingView>;

    closed spec fn view(&self) -> Seq<PendingView> {
        patch_views(self.pending@)
    }
}

impl Default for ConfigManager {
    /// No change was prepared yet.
    fn default() -> (manager: Self)
        ensures
            manager@ == Seq::<PendingView>::empty(),
            manager.wf(),
    {
        let manager = ConfigManager { pending: Vec::new() };
        assert(manager@ =~= Seq::<PendingView>::empty());
        manager
    }
}

proof fn lemma_live(pending: Seq<PendingView>, now: u64)
    ensures
        live_patches(pending, now).len() <= pending.len(),
        forall|i: int|
            0 <= i < live_patches(pending, now).len() ==> pending.contains(
                #[trigger] live_patches(pending, now)[i],
            ) && is_live(live_patches(pending, now)[i], now),
    decreases pending.len(),
{
    if pending.len() > 0 {
        let rest = pending.drop_last();
        lemma_live(rest, now);
        let live = live_patches(pending, now);
        let earlier = live_patches(rest, now);
        assert forall|i: int| 0 <= i < live.len() implies pending.contains(#[trigger] live[i])
            && is_live(live[i], now) by {
            if i < earlier.len() {
                let k = choose|k: int| 0 <= k < rest.len() && rest[k] == earlier[i];
                assert(pending[k] == live[i]);
            } else {
                assert(pending[pending.len() - 1] == live[i]);
            }
        }
    }
}

proof fn lemma_oldest(pending: Seq<PendingView>)
    requires
        pending.len() > 0,
    ensures
        0 <= oldest(pending) < pending.len(),
        forall|i: int|
            0 <= i < pending.len() ==> pending[oldest(pending)].created_at <= (
            #[trigger] pending[i]).created_at,
        forall|i: int|
            0 <= i < oldest(pending) ==> pending[oldest(pending)].created_at < (
            #[trigger] pending[i]).created_at,
    decreases pending.len(),
{
    if pending.len() > 1 {
        let rest = pending.drop_last();
        lemma_oldest(rest);
        assert forall|i: int| 0 <= i < pending.len() implies pending[oldest(pending)].created_at
            <= (#[trigger] pending[i]).created_at by {
            if i < rest.len() {
                assert(rest[oldest(rest)].created_at <= rest[i].created_at);
            }
        }
        assert forall|i: int| 0 <= i < oldest(pending) implies pending[oldest(pending)].created_at
            < (#[trigger] pending[i]).created_at by {
            if i < rest.len() {
                assert(rest[oldest(rest)].created_at <= rest[i].created_at);
                assert(rest[i] == pending[i]);
            }
        }
    }
}

proof fn lemma_without_id(pending: Seq<PendingView>, id: Seq<char>)
    ensures
        without_id(pending, id).len() <= pending.len(),
        forall|i: int|
            0 <= i < without_id(pending, id).len() ==> (#[trigger] without_id(pending, id)[i]).id
                != id,
        forall|i: int|
            0 <= i < without_id(pending, id).len() ==> pending.contains(
                #[trigger] without_id(pending, id)[i],
            ),
    decreases pending.len(),
{
    if pending.len() > 0 {
        let rest = pending.drop_last();
        lemma_without_id(rest, id);
        let earlier = without_id(rest, id);
        let kept = without_id(pending, id);
        assert forall|i: int| 0 <= i < kept.len() implies pending.contains(#[trigger] kept[i]) by {
            if i < earlier.len() {
                let k = choose|k: int| 0 <= k < rest.len() && rest[k] == earlier[i];
                assert(pending[k] == kept[i]);
            } else {
                assert(pending[pending.len() - 1] == kept[i]);
            }
        }
    }
}

impl ConfigManager {
    /// No more changes are kept than there may be.
    pub closed spec fn wf(self) -> bool {
        self.pending.len() <= MAX_PENDING
    }

    /// No more changes are kept than there may be.
    pub proof fn lemma_bounded(self)
        requires
            self.wf(),
        ensures
            self@.len() <= MAX_PENDING,
    {
    }

    fn drop_expired(&mut self, now: u64)
        ensures
            final(self)@ == live_patches(old(self)@, now),
    {
        let ghost all = self@;
        let mut rest: Vec<PendingPatch> = Vec::new();
        std::mem::swap(&mut rest, &mut self.pending);
        let total: usize = rest.len();
        let mut taken: usize = 0;
        assert(all.take(0) =~= Seq::<PendingView>::empty());
        assert(self@ =~= live_patches(all.take(0), now));
        while rest.len() > 0
            invariant
                total == all.len(),
                taken + rest.len() == total,
                patch_views(rest@) =~= all.skip(taken as int),
                self@ == live_patches(all.take(taken as int), now),
            decreases rest.len(),
        {
            let ghost left = patch_views(rest@);
            let ghost kept = self@;
            let patch = rest.remove(0);
            proof {
                assert(left[0] == patch@);
                assert(all[taken as int] == all.skip(taken as int)[0]);
                assert(all.take(taken + 1).drop_last() =~= all.take(taken as int));
                assert(all.take(taken + 1).last() == patch@);
                assert(patch_views(rest@) =~= left.drop_first());
                assert(left.drop_first() =~= all.skip(taken + 1));
            }
            let age_known = patch.created_at <= now;
            if !age_known || now - patch.created_at < PENDING_NANOS {
                let ghost patch_view = patch@;
                self.pending.push(patch);
                assert(self@ =~= kept.push(patch_view));
            }
            taken = taken + 1;
        }
        assert(all.take(total as int) =~= all);
    }

    fn find_oldest(&self) -> (place: usize)
        requires
            self@.len() > 0,
        ensures
            place == oldest(self@),
            place < self@.len(),
    {
        let ghost views = self@;
        let mut place: usize = 0;
        assert(views.take(1).len() == 1);
        for index in 1..self.pending.len()
            invariant
                views == patch_views(self.pending@),
                place < index,
                index >= 1,
                place == oldest(views.take(index as int)),
        {
            proof {
                assert(views.take(index + 1).drop_last() =~= views.take(index as int));
                assert(views.take(index + 1).last() == self.pending[index as int]@);
                assert(views.take(index + 1)[place as int] == self.pending[place as int]@);
            }
            if self.pending[index].created_at < self.pending[place].created_at {
                place = index;
            }
        }
        assert(views.take(self.pending.len() as int) =~= views);
        place
    }

    /// Takes the change with an identifier away from those that are kept.
    fn take_patch(&mut self, id: &str) -> (taken: Option<PendingPatch>)
        requires
            old(self).wf(),
        ensures
            final(self).wf(),
            final(self)@ == without_id(old(self)@, id@),
            match taken {
                Some(patch) => patch_with_id(old(self)@, id@) == Some(patch@),
                None => patch_with_id(old(self)@, id@) is None,
            },
    {
        let ghost all = self@;
        let mut rest: Vec<PendingPatch> = Vec::new();
        std::mem::swap(&mut rest, &mut self.pending);
        let total: usize = rest.len();
        let mut taken: usize = 0;
        let mut found: Option<PendingPatch> = None;
        assert(all.take(0) =~= Seq::<PendingView>::empty());
        assert(self@ =~= without_id(all.take(0), id@));
        while rest.len() > 0
            invariant
                total == all.len(),
                total <= MAX_PENDING,
                taken + rest.len() == total,
                self.pending.len() <= taken,
                patch_views(rest@) =~= all.skip(taken as int),
                self@ == without_id(all.take(taken as int), id@),
                match found {
                    Some(patch) => patch_with_id(all.take(taken as int), id@) == Some(patch@),
                    None => patch_with_id(all.take(taken as int), id@) is None,
                },
            decreases rest.len(),
        {
            let ghost left = patch_views(rest@);
            let ghost kept = self@;
            let patch = rest.remove(0);
            proof {
                assert(left[0] == patch@);
                assert(all[taken as int] == all.skip(taken as int)[0]);
                assert(all.take(taken + 1).drop_last() =~= all.take(taken as int));
                assert(all.take(taken + 1).last() == patch@);
                assert(patch_views(rest@) =~= left.drop_first());
                assert(left.drop_first() =~= all.skip(taken + 1));
            }
            if same_text(patch.id.as_str(), id) {
                found = Some(patch);
            } else {
                let ghost patch_view = patch@;
                self.pending.push(patch);
                assert(self@ =~= kept.push(patch_view));
            }
            taken = taken + 1;
        }
        assert(all.take(total as int) =~= all);
        found
    }

    /// Keeps a change that was prepared.
    pub fn remember(&mut self, patch: PendingPatch)
        requires
            old(self).wf(),
        ensures
            final(self).wf(),
            final(self)@ == kept_with(old(self)@, patch@),
    {
        let ghost before = self@;
        proof {
            lemma_live(before, patch.created_at);
        }
        self.drop_expired(patch.created_at);
        let ghost live = self@;
        assert(self.pending.len() == live.len());
        if self.pending.len() >= MAX_PENDING {
            let place: usize = self.find_oldest();
            let ghost held = self.pending@;
            self.pending.remove(place);
            assert(self@ =~= live.remove(place as int));
        }
        let ghost room = self@;
        proof {
            lemma_without_id(room, patch.id@);
        }
        let replaced = self.take_patch(patch.id.as_str());
        let ghost rest = self@;
        let ghost patch_view = patch@;
        assert(rest.len() == self.pending.len());
        self.pending.push(patch);
        assert(self@ =~= rest.push(patch_view));
    }
}

/// A change that was just prepared is kept, under its own identifier, and no
/// more are kept than there may be.
pub proof fn law_prepared_change_is_kept(pending: Seq<PendingView>, patch: PendingView)
    requires
        pending.len() <= MAX_PENDING,
    ensures
        patch_with_id(kept_with(pending, patch), patch.id) == Some(patch),
        kept_with(pending, patch).len() <= MAX_PENDING,
{
    lemma_live(pending, patch.created_at);
    let live = live_patches(pending, patch.created_at);
    if live.len() >= MAX_PENDING {
        lemma_oldest(live);
        lemma_without_id(live.remove(oldest(live)), patch.id);
    } else {
        lemma_without_id(live, patch.id);
    }
}

/// A change that is too old is not kept once another one is prepared.
pub proof fn law_old_changes_are_let_go(
    pending: Seq<PendingView>,
    patch: PendingView,
    i: int,
)
    requires
        0 <= i < kept_with(pending, patch).len(),
    ensures
        is_live(kept_with(pending, patch)[i], patch.created_at),
{
    let now = patch.created_at;
    lemma_live(pending, now);
    let live = live_patches(pending, now);
    if live.len() > 0 {
        lemma_oldest(live);
    }
    let room = if live.len() >= MAX_PENDING {
        live.remove(oldest(live))
    } else {
        live
    };
    lemma_without_id(room, patch.id);
    let others = without_id(room, patch.id);
    if i < others.len() {
        let k = choose|k: int| 0 <= k < room.len() && room[k] == others[i];
        let from = if live.len() >= MAX_PENDING && k >= oldest(live) {
            k + 1
        } else {
            k
        };
        assert(live[from] == others[i]);
    }
}

/// Where as many changes are kept as there may be, exactly one goes to make
/// room for another one, and none is older than that one. Otherwise none goes.
pub proof fn law_the_oldest_change_goes(pending: Seq<PendingView>, patch: PendingView)
    requires
        pending.len() <= MAX_PENDING,
        forall|i: int| 0 <= i < pending.len() ==> (#[trigger] pending[i]).id != patch.id,
    ensures
        ({
            let live = live_patches(pending, patch.created_at);
            let gone = oldest(live);
            if live.len() < MAX_PENDING {
                kept_with(pending, patch) == live.push(patch)
            } else {
                &&& 0 <= gone < live.len()
                &&& kept_with(pending, patch) == live.remove(gone).push(patch)
                &&& forall|i: int|
                    0 <= i < live.len() ==> live[gone].created_at <= (
                    #[trigger] live[i]).created_at
            }
        }),
{
    let live = live_patches(pending, patch.created_at);
    lemma_live(pending, patch.created_at);
    if live.len() >= MAX_PENDING {
        lemma_oldest(live);
        lemma_without_stranger(live.remove(oldest(live)), patch.id);
    } else {
        lemma_without_stranger(live, patch.id);
    }
}

proof fn lemma_without_stranger(pending: Seq<PendingView>, id: Seq<char>)
    requires
        forall|i: int| 0 <= i < pending.len() ==> (#[trigger] pending[i]).id != id,
    ensures
        without_id(pending, id) == pending,
    decreases pending.len(),
{
    if pending.len() > 0 {
        let rest = pending.drop_last();
        assert forall|i: int| 0 <= i < rest.len() implies (#[trigger] rest[i]).id != id by {
            assert(rest[i] == pending[i]);
        }
        lemma_without_stranger(rest, id);
        assert(pending[pending.len() - 1].id != id);
        assert(rest.push(pending.last()) =~= pending);
    }
}

/// The changes that are kept once others were prepared, one after the other,
/// where none of them was confirmed.
pub open spec fn kept_after(pending: Seq<PendingView>, changes: Seq<PendingView>) -> Seq<PendingView>
    decreases changes.len(),
{
    if changes.len() == 0 {
        pending
    } else {
        kept_with(kept_after(pending, changes.drop_last()), changes.last())
    }
}

/// Whether changes were prepared at rising moments, the last of them before
/// the first one was too old.
pub open spec fn in_rising_order(changes: Seq<PendingView>) -> bool {
    forall|i: int, j: int|
        0 <= i < j < changes.len() ==> {
            &&& (#[trigger] changes[i]).created_at < (#[trigger] changes[j]).created_at
            &&& is_live(changes[i], changes[j].created_at)
        }
}

/// Whether no two changes have one identifier.
pub open spec fn have_distinct_ids(changes: Seq<PendingView>) -> bool {
    forall|i: int, j: int|
        0 <= i < j < changes.len() ==> (#[trigger] changes[i]).id != (#[trigger] changes[j]).id
}

/// Whether all of some changes are older than others, and have other
/// identifiers.
pub open spec fn precede(earlier: Seq<PendingView>, later: Seq<PendingView>) -> bool {
    forall|i: int, j: int|
        0 <= i < earlier.len() && 0 <= j < later.len() ==> {
            &&& (#[trigger] earlier[i]).created_at < (#[trigger] later[j]).created_at
            &&& earlier[i].id != later[j].id
        }
}

/// How many of a number of changes there is room for.
pub open spec fn roomed(count: nat) -> nat {
    if count < MAX_PENDING {
        count
    } else {
        MAX_PENDING as nat
    }
}

/// What is kept ends in the last changes; what stands before them was kept
/// before the first of them.
spec fn ends_in(kept: Seq<PendingView>, pending: Seq<PendingView>, changes: Seq<PendingView>) -> bool {
    let tail = roomed(changes.len()) as int;
    &&& tail <= kept.len() <= MAX_PENDING
    &&& kept.skip(kept.len() - tail) == changes.skip(changes.len() - tail)
    &&& forall|i: int| 0 <= i < kept.len() - tail ==> pending.contains(#[trigger] kept[i])
}

/// What is too old leaves from before the changes that are not.
proof fn lemma_live_tail(kept: Seq<PendingView>, tail: int, now: u64)
    requires
        0 <= tail <= kept.len(),
        forall|i: int| kept.len() - tail <= i < kept.len() ==> is_live(#[trigger] kept[i], now),
    ensures
        live_patches(kept, now) == live_patches(kept.take(kept.len() - tail), now) + kept.skip(
            kept.len() - tail,
        ),
    decreases tail,
{
    if tail == 0 {
        assert(kept.take(kept.len() as int) =~= kept);
        assert(kept.skip(kept.len() as int) =~= Seq::<PendingView>::empty());
        assert(live_patches(kept, now) + Seq::<PendingView>::empty() =~= live_patches(kept, now));
    } else {
        let shorter = kept.drop_last();
        let at = kept.len() - tail;
        assert forall|i: int| at <= i < shorter.len() implies is_live(#[trigger] shorter[i], now) by {
            assert(is_live(kept[i], now));
        }
        lemma_live_tail(shorter, tail - 1, now);
        assert(is_live(kept[kept.len() - 1], now));
        assert(shorter.take(at) =~= kept.take(at));
        assert(shorter.skip(at).push(kept.last()) =~= kept.skip(at));
        assert(live_patches(kept, now) =~= live_patches(kept.take(at), now) + kept.skip(at));
    }
}

/// Fewer changes at rising moments are at rising moments too.
proof fn lemma_first_changes(pending: Seq<PendingView>, changes: Seq<PendingView>)
    requires
        changes.len() > 0,
        in_rising_order(changes),
        have_distinct_ids(changes),
        precede(pending, changes),
    ensures
        in_rising_order(changes.drop_last()),
        have_distinct_ids(changes.drop_last()),
        precede(pending, changes.drop_last()),
{
    let before = changes.drop_last();
    assert forall|i: int, j: int| 0 <= i < j < before.len() implies (
    #[trigger] before[i]).created_at < (#[trigger] before[j]).created_at && is_live(
        before[i],
        before[j].created_at,
    ) by {
        assert(changes[i].created_at < changes[j].created_at);
    }
    assert forall|i: int, j: int| 0 <= i < j < before.len() implies (#[trigger] before[i]).id != (
    #[trigger] before[j]).id by {
        assert(changes[i].id != changes[j].id);
    }
    assert forall|i: int, j: int| 0 <= i < pending.len() && 0 <= j < before.len() implies (
    #[trigger] pending[i]).created_at < (#[trigger] before[j]).created_at && pending[i].id
        != before[j].id by {
        assert(pending[i].created_at < changes[j].created_at);
    }
}

/// What is kept and not too old before another change is prepared: some of
/// what was kept before the first change, and the last changes.
spec fn is_parted(
    live: Seq<PendingView>,
    front: Seq<PendingView>,
    pending: Seq<PendingView>,
    before: Seq<PendingView>,
) -> bool {
    let tail = roomed(before.len()) as int;
    &&& live == front + before.skip(before.len() - tail)
    &&& live.len() <= MAX_PENDING
    &&& forall|i: int| 0 <= i < front.len() ==> pending.contains(#[trigger] front[i])
}

proof fn lemma_live_is_parted(
    kept: Seq<PendingView>,
    pending: Seq<PendingView>,
    changes: Seq<PendingView>,
) -> (front: Seq<PendingView>)
    requires
        changes.len() > 0,
        in_rising_order(changes),
        ends_in(kept, pending, changes.drop_last()),
    ensures
        is_parted(
            live_patches(kept, changes.last().created_at),
            front,
            pending,
            changes.drop_last(),
        ),
{
    let before = changes.drop_last();
    let now = changes.last().created_at;
    let last = changes.len() - 1;
    let tail = roomed(before.len()) as int;
    let at = kept.len() - tail;
    let shift = before.len() - tail;
    assert forall|i: int| at <= i < kept.len() implies is_live(#[trigger] kept[i], now) by {
        let k = i - at + shift;
        assert(kept.skip(at)[i - at] == before.skip(shift)[i - at]);
        assert(kept[i] == changes[k]);
        assert(changes[k].created_at < changes[last].created_at);
    }
    lemma_live_tail(kept, tail, now);
    let front = live_patches(kept.take(at), now);
    lemma_live(kept.take(at), now);
    assert forall|i: int| 0 <= i < front.len() implies pending.contains(#[trigger] front[i]) by {
        let k = choose|k: int| 0 <= k < kept.take(at).len() && kept.take(at)[k] == front[i];
        assert(pending.contains(kept[k]));
    }
    front
}

/// None of what is kept has the identifier of the change that comes next.
proof fn lemma_next_is_stranger(
    live: Seq<PendingView>,
    front: Seq<PendingView>,
    pending: Seq<PendingView>,
    changes: Seq<PendingView>,
)
    requires
        changes.len() > 0,
        have_distinct_ids(changes),
        precede(pending, changes),
        is_parted(live, front, pending, changes.drop_last()),
    ensures
        forall|i: int| 0 <= i < live.len() ==> (#[trigger] live[i]).id != changes.last().id,
{
    let before = changes.drop_last();
    let last = changes.len() - 1;
    let shift = before.len() - roomed(before.len());
    assert forall|i: int| 0 <= i < live.len() implies (#[trigger] live[i]).id
        != changes.last().id by {
        if i < front.len() {
            assert(live[i] == front[i]);
            let k = choose|k: int| 0 <= k < pending.len() && pending[k] == front[i];
            assert(pending[k].id != changes[last].id);
        } else {
            let k = i - front.len() + shift;
            assert(live[i] == changes[k]);
            assert(changes[k].id != changes[last].id);
        }
    }
}

/// The oldest of what is kept was kept before the first change, or is the first
/// of the last changes.
proof fn lemma_oldest_is_in_front(
    live: Seq<PendingView>,
    front: Seq<PendingView>,
    pending: Seq<PendingView>,
    changes: Seq<PendingView>,
)
    requires
        changes.len() > 0,
        in_rising_order(changes),
        precede(pending, changes),
        is_parted(live, front, pending, changes.drop_last()),
        live.len() > 0,
    ensures
        0 <= oldest(live) < live.len(),
        front.len() > 0 ==> oldest(live) < front.len(),
        front.len() == 0 ==> oldest(live) == 0,
{
    lemma_oldest(live);
    let before = changes.drop_last();
    let gone = oldest(live);
    let shift = before.len() - roomed(before.len());
    if front.len() > 0 && gone >= front.len() {
        let k = choose|k: int| 0 <= k < pending.len() && pending[k] == front[0];
        let j = gone - front.len() + shift;
        assert(live[gone] == changes[j]);
        assert(pending[k].created_at < changes[j].created_at);
        assert(live[0] == front[0]);
    }
    if front.len() == 0 && gone > 0 {
        assert(live[0] == changes[shift]);
        assert(live[gone] == changes[gone + shift]);
        assert(changes[shift].created_at < changes[gone + shift].created_at);
    }
}

proof fn lemma_kept_with_ends_in(
    kept: Seq<PendingView>,
    pending: Seq<PendingView>,
    changes: Seq<PendingView>,
)
    requires
        changes.len() > 0,
        in_rising_order(changes),
        have_distinct_ids(changes),
        precede(pending, changes),
        ends_in(kept, pending, changes.drop_last()),
    ensures
        ends_in(kept_with(kept, changes.last()), pending, changes),
{
    let before = changes.drop_last();
    let patch = changes.last();
    let live = live_patches(kept, patch.created_at);
    let front = lemma_live_is_parted(kept, pending, changes);
    lemma_next_is_stranger(live, front, pending, changes);
    let grown = kept_with(kept, patch);
    let more = roomed(changes.len()) as int;
    if live.len() < MAX_PENDING {
        lemma_without_stranger(live, patch.id);
        assert(grown == live.push(patch));
        assert(grown.skip(grown.len() - more) =~= changes.skip(changes.len() - more));
        assert forall|i: int| 0 <= i < grown.len() - more implies pending.contains(
            #[trigger] grown[i],
        ) by {
            assert(grown[i] == front[i]);
        }
    } else {
        lemma_oldest_is_in_front(live, front, pending, changes);
        let gone = oldest(live);
        let room = live.remove(gone);
        assert forall|i: int| 0 <= i < room.len() implies (#[trigger] room[i]).id != patch.id by {
            if i < gone {
                assert(room[i] == live[i]);
            } else {
                assert(room[i] == live[i + 1]);
            }
        }
        lemma_without_stranger(room, patch.id);
        assert(grown == room.push(patch));
        assert(grown.skip(grown.len() - more) =~= changes.skip(changes.len() - more));
        assert forall|i: int| 0 <= i < grown.len() - more implies pending.contains(
            #[trigger] grown[i],
        ) by {
            if i < gone {
                assert(grown[i] == front[i]);
            } else {
                assert(grown[i] == front[i + 1]);
            }
        }
    }
}

proof fn lemma_kept_after(pending: Seq<PendingView>, changes: Seq<PendingView>)
    requires
        pending.len() <= MAX_PENDING,
        in_rising_order(changes),
        have_distinct_ids(changes),
        precede(pending, changes),
    ensures
        ends_in(kept_after(pending, changes), pending, changes),
    decreases changes.len(),
{
    if changes.len() == 0 {
        assert(pending.skip(pending.len() as int) =~= changes.skip(0));
    } else {
        lemma_first_changes(pending, changes);
        lemma_kept_after(pending, changes.drop_last());
        lemma_kept_with_ends_in(kept_after(pending, changes.drop_last()), pending, changes);
    }
}

/// No change is found under an identifier that none of them has.
proof fn lemma_stranger_is_not_found(pending: Seq<PendingView>, id: Seq<char>)
    requires
        forall|i: int| 0 <= i < pending.len() ==> (#[trigger] pending[i]).id != id,
    ensures
        patch_with_id(pending, id) is None,
    decreases pending.len(),
{
    if pending.len() > 0 {
        let rest = pending.drop_last();
        assert forall|i: int| 0 <= i < rest.len() implies (#[trigger] rest[i]).id != id by {
            assert(rest[i] == pending[i]);
        }
        lemma_stranger_is_not_found(rest, id);
        assert(pending[pending.len() - 1].id != id);
    }
}

/// A change is found under an identifier that no other one has.
proof fn lemma_change_is_found(pending: Seq<PendingView>, place: int)
    requires
        0 <= place < pending.len(),
        have_distinct_ids(pending),
    ensures
        patch_with_id(pending, pending[place].id) == Some(pending[place]),
    decreases pending.len(),
{
    let rest = pending.drop_last();
    if place < rest.len() {
        assert(pending[place].id != pending[pending.len() - 1].id);
        assert forall|i: int, j: int| 0 <= i < j < rest.len() implies (#[trigger] rest[i]).id != (
        #[trigger] rest[j]).id by {
            assert(pending[i].id != pending[j].id);
        }
        lemma_change_is_found(rest, place);
    }
}

/// Of changes that are prepared one after the other, at rising moments before
/// the first of them is too old, and of which none is confirmed, the last ones
/// are kept, as many as there may be, and each of these is found under its
/// identifier. No earlier one is found.
pub proof fn law_the_last_changes_are_kept(pending: Seq<PendingView>, changes: Seq<PendingView>)
    requires
        pending.len() <= MAX_PENDING,
        in_rising_order(changes),
        have_distinct_ids(changes),
        precede(pending, changes),
    ensures
        kept_after(pending, changes).len() <= MAX_PENDING,
        changes.len() >= MAX_PENDING ==> kept_after(pending, changes) == changes.skip(
            changes.len() - MAX_PENDING,
        ),
        pending.len() == 0 && changes.len() < MAX_PENDING ==> kept_after(pending, changes)
            == changes,
        forall|i: int|
            changes.len() >= MAX_PENDING && 0 <= i < changes.len() - MAX_PENDING ==> patch_with_id(
                kept_after(pending, changes),
                (#[trigger] changes[i]).id,
            ) is None,
        changes.len() >= MAX_PENDING ==> forall|i: int|
            0 <= i < pending.len() ==> patch_with_id(
                kept_after(pending, changes),
                (#[trigger] pending[i]).id,
            ) is None,
        forall|i: int|
            changes.len() - MAX_PENDING <= i < changes.len() && 0 <= i && (pending.len() == 0
                || changes.len() >= MAX_PENDING) ==> patch_with_id(
                kept_after(pending, changes),
                (#[trigger] changes[i]).id,
            ) == Some(changes[i]),
{
    lemma_kept_after(pending, changes);
    let kept = kept_after(pending, changes);
    let tail = roomed(changes.len()) as int;
    let shift = changes.len() - tail;
    if changes.len() >= MAX_PENDING || pending.len() == 0 {
        if kept.len() > tail {
            assert(pending.contains(kept[0]));
        }
        assert(kept.skip(0) =~= kept);
        assert(kept =~= changes.skip(shift));
        assert forall|i: int, j: int| 0 <= i < j < kept.len() implies (#[trigger] kept[i]).id != (
        #[trigger] kept[j]).id by {
            assert(changes[i + shift].id != changes[j + shift].id);
        }
        assert forall|i: int| 0 <= i < shift implies patch_with_id(kept, (#[trigger] changes[i]).id)
            is None by {
            assert forall|k: int| 0 <= k < kept.len() implies (#[trigger] kept[k]).id
                != changes[i].id by {
                assert(changes[i].id != changes[k + shift].id);
            }
            lemma_stranger_is_not_found(kept, changes[i].id);
        }
        assert forall|i: int| 0 <= i < pending.len() implies patch_with_id(
            kept,
            (#[trigger] pending[i]).id,
        ) is None by {
            assert forall|k: int| 0 <= k < kept.len() implies (#[trigger] kept[k]).id
                != pending[i].id by {
                assert(pending[i].id != changes[k + shift].id);
            }
            lemma_stranger_is_not_found(kept, pending[i].id);
        }
        assert forall|i: int| shift <= i < changes.len() implies patch_with_id(
            kept,
            (#[trigger] changes[i]).id,
        ) == Some(changes[i]) by {
            lemma_change_is_found(kept, i - shift);
        }
    }
}

/// A change can be confirmed once.
pub proof fn law_confirmed_once(pending: Seq<PendingView>, id: Seq<char>)
    ensures
        patch_with_id(without_id(pending, id), id) is None,
    decreases pending.len(),
{
    if pending.len() > 0 {
        law_confirmed_once(pending.drop_last(), id);
        let earlier = without_id(pending.drop_last(), id);
        if pending.last().id != id {
            assert(earlier.push(pending.last()).drop_last() =~= earlier);
        }
    }
}

// ---------------------------------------------------------------------------
// Preparing a change
// ---------------------------------------------------------------------------

/// What is shown of a prepared change.
pub struct ConfigPatchPreview {
    pub operation_id: String,
    pub target_path: String,
    pub base_hash: String,
    pub rendered: String,
    pub changes: Vec<String>,
    pub api_key_masked: String,
}

/// The models, followed by those others that are not among them.
pub open spec fn with_missing(models: Seq<Seq<char>>, others: Seq<Seq<char>>) -> Seq<Seq<char>>
    decreases others.len(),
{
    if others.len() == 0 {
        models
    } else {
        let earlier = with_missing(models, others.drop_last());
        if earlier.contains(others.last()) {
            earlier
        } else {
            earlier.push(others.last())
        }
    }
}

/// The models that a service may be used with: those that were selected, or
/// all that it offers and that were added.
pub open spec fn candidates(provider: ProviderProfile) -> Seq<Seq<char>> {
    match provider.selected_models {
        Some(selected) => text::texts(selected@),
        None => with_missing(
            text::texts(provider.available_models@),
            text::texts(provider.custom_models@),
        ),
    }
}

fn copy_texts(models: &Vec<String>) -> (copy: Vec<String>)
    ensures
        text::texts(copy@) == text::texts(models@),
{
    let mut copy: Vec<String> = Vec::new();
    for index in 0..models.len()
        invariant
            copy.len() == index,
            forall|i: int| 0 <= i < index ==> #[trigger] copy@[i]@ == models@[i]@,
    {
        copy.push(models[index].clone());
    }
    assert(text::texts(copy@) =~= text::texts(models@));
    copy
}

/// The models that a service may be used with.
pub fn candidate_models(provider: &ProviderProfile) -> (models: Vec<String>)
    ensures
        text::texts(models@) == candidates(*provider),
{
    if let Some(selected) = &provider.selected_models {
        return copy_texts(selected);
    }
    let mut models = copy_texts(&provider.available_models);
    let ghost start = text::texts(models@);
    let ghost others = text::texts(provider.custom_models@);
    assert(others.take(0) =~= Seq::<Seq<char>>::empty());
    for index in 0..provider.custom_models.len()
        invariant
            others == text::texts(provider.custom_models@),
            text::texts(models@) == with_missing(start, others.take(index as int)),
    {
        let ghost before = models@;
        proof {
            assert(others[index as int] == provider.custom_models[index as int]@);
            assert(others.take(index + 1).drop_last() =~= others.take(index as int));
            assert(others.take(index + 1).last() == others[index as int]);
        }
        if !is_among(provider.custom_models[index].as_str(), &models) {
            models.push(provider.custom_models[index].clone());
            assert(text::texts(models@) =~= text::texts(before).push(others[index as int]));
        }
    }
    assert(others.take(provider.custom_models.len() as int) =~= others);
    models
}

/// The key of a service, where it has one.
pub open spec fn usable_key(provider: ProviderProfile) -> Option<Seq<char>> {
    match provider.api_key {
        Some(key) => if text::blank(key@) {
            None
        } else {
            Some(key@)
        },
        None => None,
    }
}

/// The key that Codex is given.
pub open spec fn login_key(provider: ProviderProfile, target: ActivationTarget) -> Seq<char> {
    match target.proxy_api_key {
        Some(key) => key@,
        None => usable_key(provider)->0,
    }
}

/// A change that was worked out.
pub struct PlanView {
    pub original: FilesView,
    pub source: Seq<char>,
    pub root: Entries,
    pub model: Seq<char>,
    pub login: Seq<u8>,
    pub catalog: Option<Seq<u8>>,
}

/// The configuration that a change starts from, or why it cannot be made.
pub open spec fn starting_point(reads: FileReads, provider: ProviderProfile) -> Result<
    (FilesView, Seq<char>, Entries),
    ErrorView,
> {
    match captured_files(reads) {
        Err(error) => Err(error),
        Ok(original) => match config_text(original.config) {
            Err(error) => Err(error),
            Ok(source) => if usable_key(provider) is None {
                Err(ErrorView::InvalidConfig("API Key 为空，请重新填写。"@))
            } else {
                match codex_document::configuration(source) {
                    Err(error) => Err(error),
                    Ok(root) => Ok((original, source, root)),
                }
            },
        },
    }
}

/// The change that makes Codex use a service, or why it cannot be made.
pub open spec fn planned(
    reads: FileReads,
    provider: ProviderProfile,
    target: ActivationTarget,
    models: Seq<JsonView>,
    user_agent: Seq<char>,
) -> Result<PlanView, ErrorView> {
    let pairs = service_headers(headers::pair_texts(provider.headers@), user_agent);
    match starting_point(reads, provider) {
        Err(error) => Err(error),
        Ok((original, source, root)) => match effective_model(root, candidates(provider)) {
            None => Err(
                ErrorView::InvalidConfig("此服务没有可用模型，请先刷新模型列表后再激活。"@),
            ),
            Some(model) => match codex_document::service_problem(root, model) {
                Some(error) => Err(error),
                None => match auth_file(codex_preview::key_login(login_key(provider, target))) {
                    Err(error) => Err(error),
                    Ok(login) => Ok(
                        PlanView {
                            original,
                            source,
                            root: codex_document::with_service(
                                root,
                                provider.name@,
                                target.base_url@,
                                pairs,
                                model,
                            ),
                            model,
                            login,
                            catalog: codex_preview::catalog_file(models),
                        },
                    ),
                },
            },
        },
    }
}

/// Whether a text is a configuration with the given entries, as it is written.
pub open spec fn is_text_of(rendered: Seq<char>, root: Entries) -> bool {
    exists|document: toml_edit::DocumentMut|
        document_view(document) == root && rendered == #[trigger] document_text(document)
}

/// Whether a text is what is shown of a configuration.
pub open spec fn is_shown_of(
    shown: Seq<char>,
    root: Entries,
    api_key: Seq<char>,
    pairs: Seq<(Seq<char>, Seq<char>)>,
) -> bool {
    exists|document: toml_edit::DocumentMut|
        document_view(document) == codex_preview::shown_part(root) && shown == without_secrets(
            #[trigger] document_text(document),
            api_key,
            pairs,
        )
}

/// The parts of a change that are worked out before it is written down.
struct Draft {
    original: CodexFiles,
    source: String,
    document: toml_edit::DocumentMut,
    model: String,
    login: Vec<u8>,
    catalog: Option<Vec<u8>>,
}

fn read_starting_point(reads: FileReads, provider: &ProviderProfile) -> (outcome: Result<
    (CodexFiles, String, toml_edit::DocumentMut),
    AppError,
>)
    ensures
        match outcome {
            Ok((original, source, document)) => starting_point(reads, *provider) == Ok::<
                (FilesView, Seq<char>, Entries),
                ErrorView,
            >((original@, source@, document_view(document))),
            Err(error) => starting_point(reads, *provider) == Err::<
                (FilesView, Seq<char>, Entries),
                ErrorView,
            >(error@),
        },
{
    let original = match codex_files::capture(reads) {
        Ok(original) => original,
        Err(error) => return Err(error),
    };
    let source = match read_config_text(&original.config) {
        Ok(source) => source,
        Err(error) => return Err(error),
    };
    let usable = match &provider.api_key {
        Some(key) => !text::is_blank(key.as_str()),
        None => false,
    };
    if !usable {
        return Err(AppError::invalid("API Key 为空，请重新填写。"));
    }
    match parse_config_document(source.as_str()) {
        Ok(document) => Ok((original, source, document)),
        Err(error) => Err(error),
    }
}

fn choose_key<'a>(provider: &'a ProviderProfile, target: &'a ActivationTarget) -> (key: &'a str)
    requires
        usable_key(*provider) is Some,
    ensures
        key@ == login_key(*provider, *target),
{
    match &target.proxy_api_key {
        Some(key) => key.as_str(),
        None => match &provider.api_key {
            Some(key) => key.as_str(),
            None => "",
        },
    }
}

fn draft_custom(
    reads: FileReads,
    provider: &ProviderProfile,
    target: &ActivationTarget,
    models: Vec<Json>,
    pairs: &Vec<(String, String)>,
    Ghost(user_agent): Ghost<Seq<char>>,
) -> (outcome: Result<Draft, AppError>)
    requires
        headers::pair_texts(pairs@) == service_headers(
            headers::pair_texts(provider.headers@),
            user_agent,
        ),
    ensures
        match outcome {
            Ok(draft) => {
                &&& usable_key(*provider) is Some
                &&& planned(
                    reads,
                    *provider,
                    *target,
                    json::items_view(models@),
                    user_agent,
                ) == Ok::<PlanView, ErrorView>(
                    PlanView {
                        original: draft.original@,
                        source: draft.source@,
                        root: document_view(draft.document),
                        model: draft.model@,
                        login: draft.login@,
                        catalog: bytes_view(draft.catalog),
                    },
                )
            },
            Err(error) => planned(
                reads,
                *provider,
                *target,
                json::items_view(models@),
                user_agent,
            ) == Err::<PlanView, ErrorView>(error@),
        },
{
    let (original, source, start) = match read_starting_point(reads, provider) {
        Ok(start) => start,
        Err(error) => return Err(error),
    };
    let mut document = start;
    let catalog = catalog_bytes(models);
    let candidates = candidate_models(provider);
    let model = match effective_provider_model(&document, &candidates) {
        Ok(model) => model,
        Err(error) => return Err(error),
    };
    if let Err(error) = apply_custom_fields(
        &mut document,
        provider.name.as_str(),
        target.base_url.as_str(),
        pairs,
        model.as_str(),
    ) {
        return Err(error);
    }
    let key = choose_key(provider, target);
    match render_api_key_auth(key) {
        Ok(login) => Ok(Draft { original, source, document, model, login, catalog }),
        Err(error) => Err(error),
    }
}

impl ConfigManager {
    /// Prepares the change that makes Codex use a service, under the given
    /// identifier, and says what it is. Nothing is written.
    pub fn preview_custom_with_id(
        &mut self,
        operation_id: String,
        reads: FileReads,
        target_path: String,
        provider: &ProviderProfile,
        target: &ActivationTarget,
        models: Vec<Json>,
        user_agent: &str,
        now: u64,
    ) -> (outcome: Result<ConfigPatchPreview, AppError>)
        requires
            old(self).wf(),
        ensures
            final(self).wf(),
            match planned(reads, *provider, *target, json::items_view(models@), user_agent@) {
                Err(error) => {
                    &&& final(self)@ == old(self)@
                    &&& outcome matches Err(given) && given@ == error
                },
                Ok(plan) => {
                    &&& outcome matches Ok(preview)
                    &&& preview.operation_id@ == operation_id@
                    &&& preview.target_path@ == target_path@
                    &&& preview.base_hash@ == codex_preview::sha256_hex(plan.source)
                    &&& is_shown_of(
                        preview.rendered@,
                        plan.root,
                        login_key(*provider, *target),
                        service_headers(headers::pair_texts(provider.headers@), user_agent@),
                    )
                    &&& text::texts(preview.changes@) == codex_preview::told_changes(
                        plan.model,
                        provider.api_type is Chat,
                    )
                    &&& preview.api_key_masked@ == masked(login_key(*provider, *target))
                    &&& exists|patch: PendingView|
                        {
                            &&& patch.id == operation_id@
                            &&& is_text_of(patch.rendered, plan.root)
                            &&& patch.auth_rendered == plan.login
                            &&& patch.catalog == plan.catalog
                            &&& patch.original == plan.original
                            &&& patch.created_at == now
                            &&& final(self)@ == #[trigger] kept_with(old(self)@, patch)
                        }
                },
            },
    {
        let pairs = merged_headers(&provider.headers, user_agent);
        let draft = match draft_custom(
            reads,
            provider,
            target,
            models,
            &pairs,
            Ghost(user_agent@),
        ) {
            Ok(draft) => draft,
            Err(error) => return Err(error),
        };
        let key = choose_key(provider, target);
        let rendered = toml::render_document(&draft.document);
        let shown = managed_custom_preview(&draft.document, key, &pairs);
        let chat = match provider.api_type {
            ProviderApiType::Chat => true,
            ProviderApiType::Responses => false,
        };
        let preview = ConfigPatchPreview {
            operation_id: operation_id.clone(),
            target_path,
            base_hash: codex_preview::digest(draft.source.as_str()),
            rendered: shown,
            changes: describe_changes(draft.model.as_str(), chat),
            api_key_masked: mask_secret(key),
        };
        let patch = PendingPatch {
            id: operation_id,
            rendered,
            auth_rendered: draft.login,
            catalog: draft.catalog,
            original: draft.original,
            created_at: now,
        };
        assert(is_text_of(patch@.rendered, document_view(draft.document)));
        self.remember(patch);
        Ok(preview)
    }

    /// Prepares the change that makes Codex use a service, under a random
    /// identifier, and says what it is. Nothing is written.
    pub fn preview_custom(
        &mut self,
        reads: FileReads,
        target_path: String,
        provider: &ProviderProfile,
        target: &ActivationTarget,
        models: Vec<Json>,
        user_agent: &str,
        now: u64,
    ) -> (outcome: Result<ConfigPatchPreview, AppError>)
        requires
            old(self).wf(),
        ensures
            final(self).wf(),
            match planned(reads, *provider, *target, json::items_view(models@), user_agent@) {
                Err(error) => {
                    &&& final(self)@ == old(self)@
                    &&& outcome matches Err(given) && given@ == error
                },
                Ok(plan) => {
                    &&& outcome matches Ok(preview)
                    &&& crate::ids::is_hyphenated_id(preview.operation_id@)
                    &&& preview.target_path@ == target_path@
                    &&& preview.base_hash@ == codex_preview::sha256_hex(plan.source)
                    &&& is_shown_of(
                        preview.rendered@,
                        plan.root,
                        login_key(*provider, *target),
                        service_headers(headers::pair_texts(provider.headers@), user_agent@),
                    )
                    &&& text::texts(preview.changes@) == codex_preview::told_changes(
                        plan.model,
                        provider.api_type is Chat,
                    )
                    &&& preview.api_key_masked@ == masked(login_key(*provider, *target))
                    &&& exists|patch: PendingView|
                        {
                            &&& patch.id == preview.operation_id@
                            &&& is_text_of(patch.rendered, plan.root)
                            &&& patch.auth_rendered == plan.login
                            &&& patch.catalog == plan.catalog
                            &&& patch.original == plan.original
                            &&& patch.created_at == now
                            &&& final(self)@ == #[trigger] kept_with(old(self)@, patch)
                        }
                },
            },
    {
        let operation_id = crate::ids::random_hyphenated_id();
        self.preview_custom_with_id(
            operation_id,
            reads,
            target_path,
            provider,
            target,
            models,
            user_agent,
            now,
        )
    }
}

// ---------------------------------------------------------------------------
// Applying a change
// ---------------------------------------------------------------------------

/// What a change that is confirmed leads to: writing, where the files are
/// still the same and what would be written can be read.
pub open spec fn confirmed(patch: PendingView, reads: FileReads) -> Result<CommitView, ErrorView> {
    match captured_files(reads) {
        Err(error) => Err(error),
        Ok(current) => if current != patch.original {
            Err(ErrorView::StaleOperation)
        } else {
            match toml::parsed_toml(patch.rendered) {
                Err(message) => Err(
                    ErrorView::InvalidConfig(
                        "生成的 Codex 配置格式不正确，请重新预览："@ + message,
                    ),
                ),
                Ok(_) => match codex_preview::login_in(patch.auth_rendered) {
                    Err(error) => Err(error),
                    Ok(_) => Ok(
                        CommitView::begun(
                            patch.original,
                            text::bytes_of_text(patch.rendered),
                            patch.auth_rendered,
                            patch.catalog,
                        ),
                    ),
                },
            }
        },
    }
}

/// The change under way, or the error.
pub open spec fn commit_result(outcome: Result<Commit, AppError>) -> Result<CommitView, ErrorView> {
    match outcome {
        Ok(commit) => Ok(commit@),
        Err(error) => Err(error@),
    }
}

fn confirm_patch(patch: PendingPatch, reads: FileReads) -> (outcome: Result<Commit, AppError>)
    ensures
        commit_result(outcome) == confirmed(patch@, reads),
{
    let current = match codex_files::capture(reads) {
        Ok(current) => current,
        Err(error) => return Err(error),
    };
    if !current.same_as(&patch.original) {
        return Err(AppError::StaleOperation);
    }
    if let Err(message) = toml::parse_document(patch.rendered.as_str()) {
        return Err(
            AppError::InvalidConfig(
                text::concat(
                    "生成的 Codex 配置格式不正确，请重新预览：",
                    message.as_str(),
                ),
            ),
        );
    }
    if let Err(error) = parse_auth_object(patch.auth_rendered.as_slice()) {
        return Err(error);
    }
    let config = text::text_bytes(patch.rendered.as_str());
    Ok(Commit::new(patch.original, config, patch.auth_rendered, patch.catalog))
}

impl ConfigManager {
    /// Begins to apply a prepared change. It is let go of, whatever comes of
    /// it. Where the files have changed since, nothing is done.
    pub fn apply(&mut self, operation_id: &str, reads: FileReads) -> (outcome: Result<
        Commit,
        AppError,
    >)
        requires
            old(self).wf(),
        ensures
            final(self).wf(),
            final(self)@ == without_id(old(self)@, operation_id@),
            commit_result(outcome) == match patch_with_id(old(self)@, operation_id@) {
                Some(patch) => confirmed(patch, reads),
                None => Err(ErrorView::StaleOperation),
            },
    {
        match self.take_patch(operation_id) {
            Some(patch) => confirm_patch(patch, reads),
            None => Err(AppError::StaleOperation),
        }
    }
}

/// A change is not applied to files that are not those it was prepared for.
pub proof fn law_changed_files_are_left_alone(patch: PendingView, reads: FileReads)
    requires
        captured_files(reads) is Ok,
        captured_files(reads)->Ok_0 != patch.original,
    ensures
        confirmed(patch, reads) == Err::<CommitView, ErrorView>(ErrorView::StaleOperation),
{
}

// ---------------------------------------------------------------------------
// Turning to an official account
// ---------------------------------------------------------------------------

/// The change that makes Codex use an official account.
pub struct OfficialAccountPatch {
    pub original: CodexFiles,
    pub config_rendered: String,
    pub auth_rendered: Vec<u8>,
}

/// The configuration without a service and without the relay of earlier
/// versions, or why that cannot be made.
pub open spec fn official_root(root: Entries, managed: Option<Seq<char>>) -> Result<
    Entries,
    ErrorView,
> {
    if codex_document::providers_malformed(root) {
        Err(
            ErrorView::InvalidConfig(
                "Codex 配置中的 model_providers 格式不正确，需要手动修复后再切换账号。"@,
            ),
        )
    } else {
        Ok(
            codex_document::without_relay(
                codex_document::with_table_of_providers(
                    codex_document::without_service(root, managed),
                ),
            ),
        )
    }
}

/// The login file for an account: the token of one that has a personal access
/// token, and otherwise the credential as it was serialised.
pub open spec fn official_login(
    credential: CodexAuthCredential,
    serialized: Result<Vec<u8>, String>,
) -> Result<Seq<u8>, ErrorView> {
    if crate::models::is_personal_token(credential@) {
        auth_file(codex_preview::token_login(credential.tokens.access_token@))
    } else {
        match serialized {
            Ok(bytes) => Ok(bytes@.push(10u8)),
            Err(message) => Err(ErrorView::Internal(message@)),
        }
    }
}

/// The files, the configuration and the login of a change to an official
/// account, or why it cannot be made.
pub open spec fn official_plan(
    reads: FileReads,
    credential: CodexAuthCredential,
    serialized: Result<Vec<u8>, String>,
    problem: Option<AppError>,
    managed: Option<Seq<char>>,
) -> Result<(FilesView, Entries, Seq<u8>), ErrorView> {
    match problem {
        Some(error) => Err(error@),
        None => match captured_files(reads) {
            Err(error) => Err(error),
            Ok(original) => match config_text(original.config) {
                Err(error) => Err(error),
                Ok(source) => match codex_document::configuration(source) {
                    Err(error) => Err(error),
                    Ok(root) => match official_root(root, managed) {
                        Err(error) => Err(error),
                        Ok(root) => match official_login(credential, serialized) {
                            Err(error) => Err(error),
                            Ok(login) => Ok((original, root, login)),
                        },
                    },
                },
            },
        },
    }
}

proof fn lemma_providers_in_table(root: Entries, managed: Option<Seq<char>>)
    requires
        !codex_document::providers_malformed(root),
    ensures
        toml::entry(
            codex_document::with_table_of_providers(
                codex_document::without_service(root, managed),
            ),
            "model_providers"@,
        ) matches Some(item) ==> item is Table,
{
    crate::codex_document::lemma_keys_differ();
}

fn make_official_document(
    document: &mut toml_edit::DocumentMut,
    managed_model: Option<&str>,
) -> (outcome: Result<(), AppError>)
    ensures
        match outcome {
            Ok(()) => official_root(
                document_view(*old(document)),
                text::text_of(managed_model),
            ) == Ok::<Entries, ErrorView>(document_view(*final(document))),
            Err(error) => official_root(
                document_view(*old(document)),
                text::text_of(managed_model),
            ) == Err::<Entries, ErrorView>(error@),
        },
{
    let ghost start = document_view(*document);
    if let Err(error) = clear_custom_provider_fields(document, managed_model) {
        return Err(error);
    }
    normalize_inline_model_providers(document);
    proof {
        lemma_providers_in_table(start, text::text_of(managed_model));
    }
    remove_legacy_openai_relay_provider(document)
}

fn make_official_login(
    credential: &CodexAuthCredential,
    serialized: Result<Vec<u8>, String>,
) -> (outcome: Result<Vec<u8>, AppError>)
    ensures
        codex_preview::bytes_result(outcome) == official_login(*credential, serialized),
{
    if is_personal_access_token_credential(credential) {
        return render_token_auth(credential.tokens.access_token.as_str());
    }
    match serialized {
        Ok(bytes) => {
            let mut bytes = bytes;
            bytes.push(10);
            Ok(bytes)
        },
        Err(message) => Err(AppError::Internal(message)),
    }
}

/// Prepares the change that makes Codex use an official account. `problem` is
/// what is wrong with the credential, and `serialized` the credential as JSON.
pub fn prepare_official_account_patch(
    reads: FileReads,
    credential: &CodexAuthCredential,
    serialized: Result<Vec<u8>, String>,
    problem: Option<AppError>,
    managed_model: Option<&str>,
) -> (outcome: Result<OfficialAccountPatch, AppError>)
    ensures
        match official_plan(
            reads,
            *credential,
            serialized,
            problem,
            text::text_of(managed_model),
        ) {
            Ok((original, root, login)) => {
                &&& outcome matches Ok(patch)
                &&& patch.original@ == original
                &&& is_text_of(patch.config_rendered@, root)
                &&& patch.auth_rendered@ == login
            },
            Err(error) => outcome matches Err(given) && given@ == error,
        },
{
    if let Some(error) = problem {
        return Err(error);
    }
    let original = match codex_files::capture(reads) {
        Ok(original) => original,
        Err(error) => return Err(error),
    };
    let source = match read_config_text(&original.config) {
        Ok(source) => source,
        Err(error) => return Err(error),
    };
    let mut document = match parse_config_document(source.as_str()) {
        Ok(document) => document,
        Err(error) => return Err(error),
    };
    if let Err(error) = make_official_document(&mut document, managed_model) {
        return Err(error);
    }
    let auth_rendered = match make_official_login(credential, serialized) {
        Ok(login) => login,
        Err(error) => return Err(error),
    };
    let config_rendered = toml::render_document(&document);
    assert(is_text_of(config_rendered@, document_view(document)));
    Ok(OfficialAccountPatch { original, config_rendered, auth_rendered })
}

/// Begins to apply the change to an official account. Where the files have
/// changed since it was prepared, nothing is done.
pub fn apply_official_account_patch(patch: OfficialAccountPatch, reads: FileReads) -> (outcome:
    Result<Commit, AppError>)
    ensures
        commit_result(outcome) == match captured_files(reads) {
            Err(error) => Err(error),
            Ok(current) => if current != patch.original@ {
                Err(ErrorView::StaleOperation)
            } else {
                Ok(
                    CommitView::begun(
                        patch.original@,
                        text::bytes_of_text(patch.config_rendered@),
                        patch.auth_rendered@,
                        None,
                    ),
                )
            },
        },
{
    let current = match codex_files::capture(reads) {
        Ok(current) => current,
        Err(error) => return Err(error),
    };
    if !current.same_as(&patch.original) {
        return Err(AppError::StaleOperation);
    }
    let config = text::text_bytes(patch.config_rendered.as_str());
    Ok(Commit::new(patch.original, config, patch.auth_rendered, None))
}

/// Begins to make Codex use an official account: works the change out from
/// the files as they were read first, and goes on where they are still the
/// same when they are read again.
pub fn connections_activate_official_account(
    reads: FileReads,
    again: FileReads,
    credential: &CodexAuthCredential,
    serialized: Result<Vec<u8>, String>,
    problem: Option<AppError>,
    managed_model: Option<&str>,
) -> (outcome: Result<Commit, AppError>)
    ensures
        match official_plan(
            reads,
            *credential,
            serialized,
            problem,
            text::text_of(managed_model),
        ) {
            Err(error) => outcome matches Err(given) && given@ == error,
            Ok((original, root, login)) => match captured_files(again) {
                Err(error) => outcome matches Err(given) && given@ == error,
                Ok(current) => if current != original {
                    outcome matches Err(given) && given@ is StaleOperation
                } else {
                    &&& outcome matches Ok(commit)
                    &&& exists|rendered: Seq<char>| #[trigger]
                        is_text_of(rendered, root) && commit@ == CommitView::begun(
                            original,
                            text::bytes_of_text(rendered),
                            login,
                            None,
                        )
                },
            },
        },
{
    match prepare_official_account_patch(reads, credential, serialized, problem, managed_model) {
        Ok(patch) => apply_official_account_patch(patch, again),
        Err(error) => Err(error),
    }
}

// ---------------------------------------------------------------------------
// Reading a login
// ---------------------------------------------------------------------------

/// What a login file turns out to be.
pub enum LoginFile {
    /// It holds no login.
    Empty,
    /// It holds this credential.
    Credential(CodexAuthCredential),
    /// It holds this personal access token.
    Token(String),
    /// It cannot be read as a login.
    Unreadable(AppError),
}

/// What a login file turns out to be, as a mathematical value.
pub enum LoginView {
    Empty,
    Credential(CredentialView),
    Token(Seq<char>),
    Unreadable(ErrorView),
}

impl View for LoginFile {
    type V = LoginView;

    open spec fn view(&self) -> LoginView {
        match self {
            LoginFile::Empty => LoginView::Empty,
            LoginFile::Credential(credential) => LoginView::Credential(credential@),
            LoginFile::Token(token) => LoginView::Token(token@),
            LoginFile::Unreadable(error) => LoginView::Unreadable(error@),
        }
    }
}

/// Whether a login file says that there is no login.
pub open spec fn is_empty_login(bytes: Seq<u8>) -> bool {
    ||| codex_preview::blank_bytes(bytes)
    ||| bytes == seq![123u8, 125u8]
    ||| bytes == seq![123u8, 125u8, 10u8]
}

/// The personal access token in a login file, where there is one.
pub open spec fn token_in(bytes: Seq<u8>) -> Option<Seq<char>> {
    match json::parsed_bytes(bytes) {
        Some(document) => match document.text_at("personal_access_token"@) {
            Some(token) => if text::blank(token) {
                None
            } else {
                Some(text::trimmed(token))
            },
            None => None,
        },
        None => None,
    }
}

/// What a login file is. `credential` is what it holds in the form of a
/// credential, where it has that form.
pub open spec fn login_in(bytes: Seq<u8>, credential: Option<CredentialView>) -> LoginView {
    if is_empty_login(bytes) {
        LoginView::Empty
    } else {
        match credential {
            Some(credential) => LoginView::Credential(credential),
            None => match token_in(bytes) {
                Some(token) => LoginView::Token(token),
                None => LoginView::Unreadable(
                    ErrorView::InvalidConfig(
                        "Codex 的登录文件无法识别，将在切换账号时重新写入。"@,
                    ),
                ),
            },
        }
    }
}

fn says_empty(bytes: &Vec<u8>) -> (empty: bool)
    ensures
        empty == is_empty_login(bytes@),
{
    if codex_preview::are_blank(bytes.as_slice()) {
        return true;
    }
    let braces = bytes.len() >= 2 && bytes[0] == 123 && bytes[1] == 125;
    if braces && bytes.len() == 2 {
        assert(bytes@ =~= seq![123u8, 125u8]);
        return true;
    }
    if braces && bytes.len() == 3 && bytes[2] == 10 {
        assert(bytes@ =~= seq![123u8, 125u8, 10u8]);
        return true;
    }
    false
}

/// Says what a login file is. `credential` is what it holds in the form of a
/// credential, where it has that form.
pub fn classify_login(
    contents: &Option<Vec<u8>>,
    credential: Option<CodexAuthCredential>,
) -> (login: LoginFile)
    ensures
        login@ == match contents {
            None => LoginView::Empty,
            Some(bytes) => login_in(
                bytes@,
                match credential {
                    Some(credential) => Some(credential@),
                    None => None,
                },
            ),
        },
{
    let bytes = match contents {
        Some(bytes) => bytes,
        None => return LoginFile::Empty,
    };
    if says_empty(bytes) {
        return LoginFile::Empty;
    }
    if let Some(credential) = credential {
        return LoginFile::Credential(credential);
    }
    if let Some(document) = Json::parse_bytes(bytes.as_slice()) {
        if let Some(token) = document.text_at("personal_access_token") {
            if !text::is_blank(token) {
                return LoginFile::Token(text::trim(token));
            }
        }
    }
    LoginFile::Unreadable(
        AppError::invalid("Codex 的登录文件无法识别，将在切换账号时重新写入。"),
    )
}

/// A personal access token that was written into a login file is found in it
/// again.
pub proof fn law_written_token_is_read_back(bytes: Seq<u8>, token: Seq<char>)
    requires
        codex_preview::holds_login(bytes, codex_preview::token_login(token)),
        !text::blank(token),
    ensures
        token_in(bytes) == Some(text::trimmed(token)),
{
    reveal_strlit("OPENAI_API_KEY");
    reveal_strlit("personal_access_token");
    assert("OPENAI_API_KEY"@.len() != "personal_access_token"@.len());
}

/// The login that was written for an account is found again. A personal access
/// token comes back trimmed. Any other credential is found in the bytes that it
/// was serialised to, with a line feed behind them, where these are read in the
/// form of a credential, as the one that was serialised.
pub proof fn law_written_login_is_found(
    credential: CodexAuthCredential,
    serialized: Result<Vec<u8>, String>,
    bytes: Seq<u8>,
    parsed: Option<CredentialView>,
)
    requires
        official_login(credential, serialized) == Ok::<Seq<u8>, ErrorView>(bytes),
        !is_empty_login(bytes),
        if crate::models::is_personal_token(credential@) {
            &&& codex_preview::holds_login(
                bytes,
                codex_preview::token_login(credential.tokens.access_token@),
            )
            &&& !text::blank(credential.tokens.access_token@)
            &&& parsed is None
        } else {
            parsed == Some(credential@)
        },
    ensures
        login_in(bytes, parsed) == if crate::models::is_personal_token(credential@) {
            LoginView::Token(text::trimmed(credential@.access_token))
        } else {
            LoginView::Credential(credential@)
        },
        !crate::models::is_personal_token(credential@) ==> serialized is Ok && bytes
            == serialized->Ok_0@.push(10u8),
{
    if crate::models::is_personal_token(credential@) {
        law_written_token_is_read_back(bytes, credential.tokens.access_token@);
    }
}

/// The credential that a personal access token stands for, with the account
/// that it is of.
pub fn credential_of_token(token: String, account_id: String) -> (credential: CodexAuthCredential)
    ensures
        credential@.auth_mode == "personal_access_token"@,
        credential@.openai_api_key is None,
        credential@.id_token == Seq::<char>::empty(),
        credential@.access_token == token@,
        credential@.refresh_token == Seq::<char>::empty(),
        credential@.account_id == account_id@,
        credential@.last_refresh == Seq::<char>::empty(),
{
    proof {
        reveal_strlit("");
        assert(""@ =~= Seq::<char>::empty());
    }
    CodexAuthCredential {
        auth_mode: "personal_access_token".to_owned(),
        openai_api_key: None,
        tokens: CodexAuthTokens {
            id_token: "".to_owned(),
            access_token: token,
            refresh_token: "".to_owned(),
            account_id,
        },
        last_refresh: "".to_owned(),
    }
}

// ---------------------------------------------------------------------------
// Where Codex keeps its files
// ---------------------------------------------------------------------------

/// Whether a character parts the names of a path. Where the backslash does,
/// the slash does too.
pub open spec fn parts_names(c: char, separator: char) -> bool {
    c == separator || separator == '\\' && c == '/'
}

/// Whether a path is the letter of a drive and a colon, where paths have
/// drives.
pub open spec fn is_bare_drive(path: Seq<char>, separator: char) -> bool {
    &&& separator == '\\'
    &&& path.len() == 2
    &&& ('a' <= path[0] <= 'z' || 'A' <= path[0] <= 'Z')
    &&& path[1] == ':'
}

/// A name below a directory. No separator is put down behind one, nor behind a
/// bare drive, whose current directory the name is then below.
pub open spec fn below(directory: Seq<char>, separator: char, name: Seq<char>) -> Seq<char> {
    if directory.len() == 0 || parts_names(directory.last(), separator) || is_bare_drive(
        directory,
        separator,
    ) {
        directory + name
    } else {
        directory.push(separator) + name
    }
}

/// The directory in which Codex keeps its files by itself: the one that the
/// environment names, or else one below the home directory of the user. Where
/// that is not known, it is below the current directory.
pub open spec fn standard_place(
    from_environment: Option<Seq<char>>,
    user_home: Option<Seq<char>>,
    separator: char,
) -> Seq<char> {
    match from_environment {
        Some(path) => path,
        None => below(
            match user_home {
                Some(path) => path,
                None => "."@,
            },
            separator,
            ".codex"@,
        ),
    }
}

/// The directory in which Codex keeps its files by itself. `from_environment`
/// is the value of `CODEX_HOME`, where it is set.
pub fn standard_home(
    from_environment: Option<String>,
    user_home: Option<String>,
    separator: char,
) -> (path: String)
    ensures
        path@ == standard_place(
            text::string_of(from_environment),
            text::string_of(user_home),
            separator,
        ),
{
    if let Some(path) = from_environment {
        return path;
    }
    let mut path = match user_home {
        Some(path) => path,
        None => ".".to_owned(),
    };
    let ghost directory = path@;
    let chars = text::chars_of(path.as_str());
    let has_drives = separator == '\\';
    let is_drive = has_drives && chars.len() == 2 && (('a' <= chars[0] && chars[0] <= 'z') || (
    'A' <= chars[0] && chars[0] <= 'Z')) && chars[1] == ':';
    if chars.len() > 0 && !is_drive {
        let last = chars[chars.len() - 1];
        if last != separator && !(has_drives && last == '/') {
            path.push(separator);
        }
    }
    assert(path@ + ".codex"@ == below(directory, separator, ".codex"@));
    path.append(".codex");
    path
}

/// The directory in which Codex keeps its files: the one in the settings, where
/// there is one, or else the one that Codex takes by itself.
pub fn home(
    configured: &str,
    from_environment: Option<String>,
    user_home: Option<String>,
    separator: char,
) -> (path: String)
    ensures
        path@ == if text::blank(configured@) {
            standard_place(
                text::string_of(from_environment),
                text::string_of(user_home),
                separator,
            )
        } else {
            text::trimmed(configured@)
        },
{
    if text::is_blank(configured) {
        standard_home(from_environment, user_home, separator)
    } else {
        text::trim(configured)
    }
}

/// The model that a configuration file names, where it can be read.
pub fn configured_model(source: Option<&str>) -> (model: Option<String>)
    ensures
        text::string_of(model) == match source {
            Some(source) => match toml::parsed_toml(source@) {
                Ok(root) => codex_document::named_model(root),
                Err(_) => None,
            },
            None => None,
        },
{
    let source = match source {
        Some(source) => source,
        None => return None,
    };
    match toml::parse_document(source) {
        Ok(document) => codex_document::read_model(&document),
        Err(_) => None,
    }
}

} // verus!
