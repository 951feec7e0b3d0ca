//! How the applet answers each message: the new state and the work to do.
use vstd::prelude::*;
use vstd::string::*;
use crate::keyed;
use crate::messages::{Action, Message};
use crate::model::{AppModel, ConnectedDevice, DeviceData};
use crate::report::ErrorMessage;
use crate::text;

verus! {

/// Seconds a re-paired device stays marked as reconnecting.
pub const RECONNECT_SECONDS: u64 = 60;

/// One tick of the reconnect countdowns: each entry with time left loses a
/// second, each entry at zero is dropped, and the order is kept.
pub open spec fn countdown(s: Seq<(String, u64)>) -> Seq<(String, u64)>
    decreases s.len(),
{
    if s.len() == 0 {
        Seq::empty()
    } else {
        let rest = countdown(s.drop_last());
        if s.last().1 > 0 {
            rest.push((s.last().0, (s.last().1 - 1) as u64))
        } else {
            rest
        }
    }
}

/// The name that the last pair for address `k` gives it.
pub open spec fn last_name_for(s: Seq<(String, String)>, k: Seq<char>) -> Option<String>
    decreases s.len(),
{
    if s.len() == 0 {
        None
    } else if s.last().0@ == k {
        Some(s.last().1)
    } else {
        last_name_for(s.drop_last(), k)
    }
}

/// The remembered names after a load of `paired`: each pair in turn
/// inserted, replacing the name of an address already present.
pub open spec fn names_list(paired: Seq<(String, String)>) -> Seq<(String, String)>
    decreases paired.len(),
{
    if paired.len() == 0 {
        Seq::empty()
    } else {
        keyed::upsert(names_list(paired.drop_last()), paired.last().0, paired.last().1)
    }
}

/// The devices being reconnected that `paired` does not list, in the
/// order of `reconnecting`, each named by its address.
pub open spec fn unlisted_reconnects(
    reconnecting: Seq<(String, u64)>,
    paired: Seq<(String, String)>,
) -> Seq<(String, String)>
    decreases reconnecting.len(),
{
    if reconnecting.len() == 0 {
        Seq::empty()
    } else {
        let rest = unlisted_reconnects(reconnecting.drop_last(), paired);
        let addr = reconnecting.last().0;
        if keyed::has_key(paired, addr@) {
            rest
        } else {
            rest.push((addr, addr))
        }
    }
}

/// The name a reconnect restores: the one remembered from the last load,
/// else that of the first listed pair for the address, else the address.
pub open spec fn reconnect_name(
    names: Seq<(String, String)>,
    paired: Seq<(String, String)>,
    addr: String,
) -> String {
    match keyed::lookup(names, addr@) {
        Some(n) => n,
        None => match keyed::lookup(paired, addr@) {
            Some(n) => n,
            None => addr,
        },
    }
}

proof fn lemma_countdown_keys(s: Seq<(String, u64)>)
    ensures
        forall|k: Seq<char>| #[trigger] keyed::has_key(countdown(s), k) ==> keyed::has_key(s, k),
        keyed::keys_distinct(s) ==> keyed::keys_distinct(countdown(s)),
    decreases s.len(),
{
    if s.len() > 0 {
        let p = s.drop_last();
        lemma_countdown_keys(p);
        let rest = countdown(p);
        let e = (s.last().0, (s.last().1 - 1) as u64);
        assert(s =~= p.push(s.last()));
        assert forall|k: Seq<char>| #[trigger] keyed::has_key(countdown(s), k) implies keyed::has_key(
            s,
            k,
        ) by {
            keyed::lemma_has_key_push(p, s.last(), k);
            if s.last().1 > 0 {
                keyed::lemma_has_key_push(rest, e, k);
            }
        }
        if keyed::keys_distinct(s) {
            keyed::lemma_distinct_drop_last(s);
            if s.last().1 > 0 {
                if keyed::has_key(rest, e.0@) {
                    assert(keyed::has_key(p, e.0@));
                }
                keyed::lemma_distinct_push(rest, e);
            }
        }
    }
}

proof fn lemma_unlisted_keys(r: Seq<(String, u64)>, paired: Seq<(String, String)>)
    ensures
        forall|k: Seq<char>| #[trigger]
            keyed::has_key(unlisted_reconnects(r, paired), k) ==> keyed::has_key(r, k)
                && !keyed::has_key(paired, k),
        forall|k: Seq<char>| #[trigger]
            keyed::has_key(r, k) ==> keyed::has_key(paired + unlisted_reconnects(r, paired), k),
    decreases r.len(),
{
    if r.len() > 0 {
        let p = r.drop_last();
        lemma_unlisted_keys(p, paired);
        let rest = unlisted_reconnects(p, paired);
        let a = r.last().0;
        assert(r =~= p.push(r.last()));
        assert forall|k: Seq<char>| #[trigger]
            keyed::has_key(unlisted_reconnects(r, paired), k) implies keyed::has_key(r, k)
            && !keyed::has_key(paired, k) by {
            keyed::lemma_has_key_push(p, r.last(), k);
            if !keyed::has_key(paired, a@) {
                keyed::lemma_has_key_push(rest, (a, a), k);
            }
        }
        assert forall|k: Seq<char>| #[trigger] keyed::has_key(r, k) implies keyed::has_key(
            paired + unlisted_reconnects(r, paired),
            k,
        ) by {
            keyed::lemma_has_key_push(p, r.last(), k);
            keyed::lemma_has_key_concat(paired, rest, k);
            keyed::lemma_has_key_concat(paired, unlisted_reconnects(r, paired), k);
            if !keyed::has_key(paired, a@) {
                keyed::lemma_has_key_push(rest, (a, a), k);
            }
        }
    }
}

/// The countdowns after one more second.
fn countdown_entries(entries: &Vec<(String, u64)>) -> (next: Vec<(String, u64)>)
    ensures
        next@ == countdown(entries@),
{
    let mut next: Vec<(String, u64)> = Vec::new();
    let mut i: usize = 0;
    while i < entries.len()
        invariant
            i <= entries@.len(),
            next@ == countdown(entries@.subrange(0, i as int)),
        decreases entries@.len() - i,
    {
        let entry = &entries[i];
        if entry.1 > 0 {
            next.push((entry.0.clone(), entry.1 - 1));
        }
        proof {
            assert(entries@.subrange(0, i + 1).drop_last() =~= entries@.subrange(0, i as int));
        }
        i = i + 1;
    }
    assert(entries@.subrange(0, entries@.len() as int) =~= entries@);
    next
}

/// The name of each address in `paired`, the last pair for an address winning.
fn names_of(paired: &Vec<(String, String)>) -> (names: Vec<(String, String)>)
    ensures
        names@ == names_list(paired@),
        keyed::keys_distinct(names@),
        forall|k: Seq<char>| #[trigger] keyed::lookup(names@, k) == last_name_for(paired@, k),
        forall|k: Seq<char>| #[trigger] keyed::has_key(names@, k) == keyed::has_key(paired@, k),
{
    let mut names: Vec<(String, String)> = Vec::new();
    let mut i: usize = 0;
    while i < paired.len()
        invariant
            i <= paired@.len(),
            names@ == names_list(paired@.subrange(0, i as int)),
            keyed::keys_distinct(names@),
            forall|k: Seq<char>| #[trigger]
                keyed::lookup(names@, k) == last_name_for(paired@.subrange(0, i as int), k),
            forall|k: Seq<char>| #[trigger]
                keyed::has_key(names@, k) == keyed::has_key(paired@.subrange(0, i as int), k),
        decreases paired@.len() - i,
    {
        let ghost before = names@;
        let key = paired[i].0.clone();
        let value = paired[i].1.clone();
        let ghost gkey = key;
        let ghost gvalue = value;
        keyed::upsert_key(&mut names, key, value);
        proof {
            let sub = paired@.subrange(0, i + 1);
            assert(sub.drop_last() =~= paired@.subrange(0, i as int));
            assert(sub =~= paired@.subrange(0, i as int).push(paired@[i as int]));
            assert(sub.last() == paired@[i as int]);
            keyed::lemma_upsert(before, gkey, gvalue, gkey@);
            assert forall|k: Seq<char>| #[trigger] keyed::lookup(names@, k) == last_name_for(sub, k)
                by {
                keyed::lemma_upsert(before, gkey, gvalue, k);
            }
            assert forall|k: Seq<char>| #[trigger] keyed::has_key(names@, k) == keyed::has_key(
                sub,
                k,
            ) by {
                keyed::lemma_upsert(before, gkey, gvalue, k);
                keyed::lemma_has_key_push(paired@.subrange(0, i as int), paired@[i as int], k);
            }
        }
        i = i + 1;
    }
    assert(paired@.subrange(0, paired@.len() as int) =~= paired@);
    names
}

/// Appends to `paired` each device being reconnected that it does not list,
/// named as the remembered names say (which, for an unlisted device, is by
/// its address).
fn list_pending(
    paired: &mut Vec<(String, String)>,
    reconnecting: &Vec<(String, u64)>,
    names: &Vec<(String, String)>,
)
    requires
        keyed::keys_distinct(reconnecting@),
        forall|k: Seq<char>| #[trigger]
            keyed::has_key(names@, k) == keyed::has_key(old(paired)@, k),
    ensures
        final(paired)@ == old(paired)@ + unlisted_reconnects(reconnecting@, old(paired)@),
{
    let ghost base = paired@;
    let mut i: usize = 0;
    assert(base =~= base + unlisted_reconnects(reconnecting@.subrange(0, 0), base));
    while i < reconnecting.len()
        invariant
            i <= reconnecting@.len(),
            keyed::keys_distinct(reconnecting@),
            forall|k: Seq<char>| #[trigger] keyed::has_key(names@, k) == keyed::has_key(base, k),
            paired@ == base + unlisted_reconnects(reconnecting@.subrange(0, i as int), base),
        decreases reconnecting@.len() - i,
    {
        let addr = &reconnecting[i].0;
        let ghost sub = reconnecting@.subrange(0, i as int);
        proof {
            lemma_unlisted_keys(sub, base);
            keyed::lemma_has_key_concat(base, unlisted_reconnects(sub, base), addr@);
            if keyed::has_key(sub, addr@) {
                let w = choose|j: int| 0 <= j < sub.len() && #[trigger] sub[j].0@ == addr@;
                assert(reconnecting@[w].0@ != reconnecting@[i as int].0@);
            }
            let next = reconnecting@.subrange(0, i + 1);
            assert(next.drop_last() =~= sub);
            assert(next.last() == reconnecting@[i as int]);
        }
        match keyed::position_of_key(paired, addr) {
            Some(_) => {},
            None => {
                let name = match keyed::position_of_key(names, addr) {
                    Some(j) => {
                        assert(keyed::has_key(names@, addr@));
                        names[j].1.clone()
                    },
                    None => addr.clone(),
                };
                assert(name == reconnecting@[i as int].0);
                paired.push((addr.clone(), name));
            },
        }
        i = i + 1;
    }
    assert(reconnecting@.subrange(0, reconnecting@.len() as int) =~= reconnecting@);
}

/// A load of the device lists succeeded: show them, keep every device being
/// reconnected in the paired list, and clear the error.
fn on_data_loaded(app: &mut AppModel, data: DeviceData)
    requires
        old(app).wf(),
    ensures
        final(app).wf(),
        final(app).connected == data.connected,
        final(app).paired@ == data.paired@ + unlisted_reconnects(old(app).reconnecting@, data.paired@),
        final(app).paired_names@ == names_list(data.paired@),
        forall|k: Seq<char>| #[trigger]
            keyed::lookup(final(app).paired_names@, k) == last_name_for(data.paired@, k),
        forall|k: Seq<char>| #[trigger]
            keyed::has_key(final(app).paired_names@, k) == keyed::has_key(data.paired@, k),
        *final(app) == (AppModel {
            connected: final(app).connected,
            paired: final(app).paired,
            paired_names: final(app).paired_names,
            last_error: None,
            ..*old(app)
        }),
{
    app.connected = data.connected;
    let mut paired = data.paired;
    app.paired_names = names_of(&paired);
    list_pending(&mut paired, &app.reconnecting, &app.paired_names);
    app.paired = paired;
    app.last_error = None;
}

/// The user confirmed a new name for `addr`.
fn on_rename_submit(app: &mut AppModel, addr: String) -> (action: Action)
    requires
        old(app).wf(),
    ensures
        final(app).wf(),
        text::trim_spec(old(app).renaming_value@).len() == 0 ==> {
            &&& action is Idle
            &&& *final(app) == (AppModel {
                last_error: Some(ErrorMessage::RenameEmpty),
                ..*old(app)
            })
        },
        text::trim_spec(old(app).renaming_value@).len() != 0 ==> {
            &&& action matches Action::Rename(a, n)
            &&& action->Rename_0 == addr
            &&& action->Rename_1@ == text::trim_spec(old(app).renaming_value@)
            &&& final(app).renaming_value@ == Seq::<char>::empty()
            &&& *final(app) == (AppModel {
                renaming_addr: None,
                renaming_value: final(app).renaming_value,
                ..*old(app)
            })
        },
{
    let new_name = text::trim(app.renaming_value.as_str());
    if new_name.as_str().is_empty() {
        app.last_error = Some(ErrorMessage::RenameEmpty);
        return Action::Idle;
    }
    app.renaming_addr = None;
    app.renaming_value = String::new();
    Action::Rename(addr, new_name)
}

/// The user asked to re-pair `addr`: start its countdown and pick the name
/// to give it back.
fn on_reconnect_device(app: &mut AppModel, addr: String) -> (action: Action)
    requires
        old(app).wf(),
    ensures
        final(app).wf(),
        final(app).reconnecting@ == keyed::upsert(old(app).reconnecting@, addr, RECONNECT_SECONDS),
        action == Action::Reconnect(
            addr,
            reconnect_name(old(app).paired_names@, old(app).paired@, addr),
        ),
        *final(app) == (AppModel { reconnecting: final(app).reconnecting, ..*old(app) }),
{
    proof {
        keyed::lemma_upsert(old(app).reconnecting@, addr, RECONNECT_SECONDS, addr@);
    }
    keyed::upsert_key(&mut app.reconnecting, addr.clone(), RECONNECT_SECONDS);
    let name = match keyed::position_of_key(&app.paired_names, &addr) {
        Some(i) => {
            proof {
                keyed::lemma_first_key_index_unique(app.paired_names@, addr@, i as int);
            }
            app.paired_names[i].1.clone()
        },
        None => match keyed::position_of_key(&app.paired, &addr) {
            Some(i) => {
                proof {
                    keyed::lemma_first_key_index_unique(app.paired@, addr@, i as int);
                }
                app.paired[i].1.clone()
            },
            None => addr.clone(),
        },
    };
    Action::Reconnect(addr, name)
}

/// What one tick does to a countdown: a second less while time is left,
/// gone once it is at zero.
pub open spec fn tick_one(left: Option<u64>) -> Option<u64> {
    match left {
        Some(v) => if v > 0 {
            Some((v - 1) as u64)
        } else {
            None
        },
        None => None,
    }
}

/// The countdowns after `n` ticks.
pub open spec fn countdown_times(s: Seq<(String, u64)>, n: nat) -> Seq<(String, u64)>
    decreases n,
{
    if n == 0 {
        s
    } else {
        countdown_times(countdown(s), (n - 1) as nat)
    }
}

proof fn lemma_lookup_push<V>(s: Seq<(String, V)>, e: (String, V), k: Seq<char>)
    requires
        keyed::keys_distinct(s),
        !keyed::has_key(s, e.0@),
    ensures
        keyed::keys_distinct(s.push(e)),
        keyed::lookup(s.push(e), k) == if e.0@ == k {
            Some(e.1)
        } else {
            keyed::lookup(s, k)
        },
{
    keyed::lemma_upsert(s, e.0, e.1, k);
    assert(keyed::upsert(s, e.0, e.1) == s.push(e));
}

/// One tick takes a second off every device being reconnected and drops
/// those whose countdown had reached zero; no other entry changes.
pub proof fn law_tick_counts_down(s: Seq<(String, u64)>, k: Seq<char>)
    requires
        keyed::keys_distinct(s),
    ensures
        keyed::keys_distinct(countdown(s)),
        keyed::lookup(countdown(s), k) == tick_one(keyed::lookup(s, k)),
    decreases s.len(),
{
    lemma_countdown_keys(s);
    if s.len() > 0 {
        let p = s.drop_last();
        let last = s.last();
        keyed::lemma_distinct_drop_last(s);
        law_tick_counts_down(p, k);
        assert(s =~= p.push(last));
        lemma_lookup_push(p, last, k);
        let rest = countdown(p);
        lemma_countdown_keys(p);
        if keyed::has_key(rest, last.0@) {
            assert(keyed::has_key(p, last.0@));
        }
        if last.1 > 0 {
            lemma_lookup_push(rest, (last.0, (last.1 - 1) as u64), k);
        } else if k == last.0@ {
            law_tick_counts_down(p, last.0@);
        }
    } else {
        assert(!keyed::has_key(s, k));
        assert(!keyed::has_key(countdown(s), k));
    }
}

/// A device being reconnected with `v` seconds left shows `v - m` after `m`
/// ticks, for `m` up to `v`, and is gone after `v + 1` ticks.
pub proof fn law_countdown_ends(s: Seq<(String, u64)>, k: Seq<char>, v: u64, m: nat)
    requires
        keyed::keys_distinct(s),
        keyed::lookup(s, k) == Some(v),
    ensures
        m <= v ==> keyed::lookup(countdown_times(s, m), k) == Some((v - m) as u64),
        keyed::lookup(countdown_times(s, (v + 1) as nat), k) is None,
    decreases v,
{
    law_tick_counts_down(s, k);
    if v == 0 {
        assert(countdown_times(s, 1) == countdown_times(countdown(s), 0));
        assert(m <= v ==> countdown_times(s, m) == s);
    } else {
        let t = countdown(s);
        law_countdown_ends(t, k, (v - 1) as u64, if m > 0 {
            (m - 1) as nat
        } else {
            0
        });
        assert(countdown_times(s, (v + 1) as nat) == countdown_times(t, v as nat));
        if m > 0 {
            assert(countdown_times(s, m) == countdown_times(t, (m - 1) as nat));
        }
    }
}

/// Starting a reconnect and then hearing that it finished leaves the other
/// devices' countdowns as they were and no countdown for the device.
pub proof fn law_reconnect_round_trip(s: Seq<(String, u64)>, addr: String, k: Seq<char>)
    requires
        keyed::keys_distinct(s),
    ensures
        keyed::lookup(keyed::upsert(s, addr, RECONNECT_SECONDS), addr@) == Some(RECONNECT_SECONDS),
        keyed::lookup(keyed::remove_key(keyed::upsert(s, addr, RECONNECT_SECONDS), addr@), k)
            == if k == addr@ {
            None
        } else {
            keyed::lookup(s, k)
        },
{
    keyed::lemma_upsert(s, addr, RECONNECT_SECONDS, addr@);
    keyed::lemma_upsert(s, addr, RECONNECT_SECONDS, k);
    keyed::lemma_remove_key(keyed::upsert(s, addr, RECONNECT_SECONDS), addr@, k);
}

/// What `update` does with `message` in state `old`: the state `new` it
/// leaves and the `action` it asks for.
pub open spec fn update_post(old: AppModel, message: Message, new: AppModel, action: Action) -> bool {
    match message {
        Message::TogglePopup(fresh) => match old.popup {
            Some(open) => action == Action::ClosePopup(open) && new == (AppModel {
                popup: None,
                ..old
            }),
            None => action == Action::OpenPopup(fresh) && new == (AppModel {
                popup: Some(fresh),
                ..old
            }),
        },
        Message::PopupClosed(id) => action is Idle && new == (AppModel {
            popup: if old.popup == Some(id) {
                None
            } else {
                old.popup
            },
            ..old
        }),
        Message::Refresh => new == old && if old.reconnecting@.len() > 0
            || old.renaming_addr is Some {
            action is Idle
        } else {
            action is LoadDevices
        },
        Message::Tick => action is Idle && new.reconnecting@ == countdown(
            old.reconnecting@,
        ) && new == (AppModel { reconnecting: new.reconnecting, ..old }),
        Message::DataLoaded(Ok(data)) => {
            &&& action is Idle
            &&& new.connected == data.connected
            &&& new.paired@ == data.paired@ + unlisted_reconnects(
                old.reconnecting@,
                data.paired@,
            )
            &&& forall|k: Seq<char>| #[trigger]
                keyed::has_key(old.reconnecting@, k) ==> keyed::has_key(
                    new.paired@,
                    k,
                )
            &&& new.paired_names@ == names_list(data.paired@)
            &&& forall|k: Seq<char>| #[trigger]
                keyed::lookup(new.paired_names@, k) == last_name_for(data.paired@, k)
            &&& forall|k: Seq<char>| #[trigger]
                keyed::has_key(new.paired_names@, k) == keyed::has_key(data.paired@, k)
            &&& new == (AppModel {
                connected: new.connected,
                paired: new.paired,
                paired_names: new.paired_names,
                last_error: None,
                ..old
            })
        },
        Message::DataLoaded(Err(e)) => action is Idle && new == (AppModel {
            last_error: Some(e),
            ..old
        }),
        Message::DisconnectDevice(addr) => action == Action::Disconnect(addr) && new
            == old,
        Message::RenameStart(addr, current) => action is Idle && new == (AppModel {
            renaming_addr: Some(addr),
            renaming_value: current,
            ..old
        }),
        Message::RenameInput(value) => action is Idle && new == (AppModel {
            renaming_value: value,
            ..old
        }),
        Message::RenameCancel => {
            &&& action is Idle
            &&& new.renaming_value@ == Seq::<char>::empty()
            &&& new == (AppModel {
                renaming_addr: None,
                renaming_value: new.renaming_value,
                ..old
            })
        },
        Message::RenameSubmit(addr) => if text::trim_spec(old.renaming_value@).len()
            == 0 {
            &&& action is Idle
            &&& new == (AppModel {
                last_error: Some(ErrorMessage::RenameEmpty),
                ..old
            })
        } else {
            &&& action matches Action::Rename(a, n)
            &&& action->Rename_0 == addr
            &&& action->Rename_1@ == text::trim_spec(old.renaming_value@)
            &&& new.renaming_value@ == Seq::<char>::empty()
            &&& new == (AppModel {
                renaming_addr: None,
                renaming_value: new.renaming_value,
                ..old
            })
        },
        Message::RemoveDevice(addr) => action == Action::Remove(addr) && new
            == old,
        Message::ReconnectDevice(addr) => {
            &&& new.reconnecting@ == keyed::upsert(
                old.reconnecting@,
                addr,
                RECONNECT_SECONDS,
            )
            &&& action == Action::Reconnect(
                addr,
                reconnect_name(old.paired_names@, old.paired@, addr),
            )
            &&& new == (AppModel { reconnecting: new.reconnecting, ..old })
        },
        Message::ReconnectResult(Ok((addr, _found))) => {
            &&& action is LoadDevices
            &&& new.reconnecting@ == keyed::remove_key(old.reconnecting@, addr@)
            &&& new == (AppModel { reconnecting: new.reconnecting, ..old })
        },
        Message::DisconnectResult(reply) | Message::RenameResult(reply)
        | Message::RemoveResult(reply) => match reply {
            Ok(()) => action is LoadDevices && new == old,
            Err(e) => action is Idle && new == (AppModel {
                last_error: Some(e),
                ..old
            }),
        },
        Message::ReconnectResult(Err(e)) => action is Idle && new == (AppModel {
            last_error: Some(e),
            ..old
        }),
    }
}

/// Answers one message: updates the state and says what work to start.
///
/// Reloading waits while a device is being reconnected or renamed; the
/// one-second tick runs the reconnect countdowns down; a load replaces the
/// lists but keeps every device being reconnected among the paired ones;
/// an error reply is kept for display and a success reply reloads.
pub fn update(app: &mut AppModel, message: Message) -> (action: Action)
    requires
        old(app).wf(),
    ensures
        final(app).wf(),
        update_post(*old(app), message, *final(app), action),
{
    match message {
        Message::TogglePopup(fresh) => match app.popup {
            Some(open) => {
                app.popup = None;
                Action::ClosePopup(open)
            },
            None => {
                app.popup = Some(fresh);
                Action::OpenPopup(fresh)
            },
        },
        Message::PopupClosed(id) => {
            match app.popup {
                Some(open) => {
                    if open == id {
                        app.popup = None;
                    }
                },
                None => {},
            }
            Action::Idle
        },
        Message::Refresh => {
            if !app.reconnecting.is_empty() || app.renaming_addr.is_some() {
                Action::Idle
            } else {
                Action::LoadDevices
            }
        },
        Message::Tick => {
            if !app.reconnecting.is_empty() {
                let next = countdown_entries(&app.reconnecting);
                proof {
                    lemma_countdown_keys(app.reconnecting@);
                }
                app.reconnecting = next;
            } else {
                assert(app.reconnecting@ =~= countdown(app.reconnecting@));
            }
            Action::Idle
        },
        Message::DataLoaded(Ok(data)) => {
            proof {
                lemma_unlisted_keys(app.reconnecting@, data.paired@);
            }
            on_data_loaded(app, data);
            Action::Idle
        },
        Message::DataLoaded(Err(e)) => {
            app.last_error = Some(e);
            Action::Idle
        },
        Message::DisconnectDevice(addr) => Action::Disconnect(addr),
        Message::RenameStart(addr, current) => {
            app.renaming_addr = Some(addr);
            app.renaming_value = current;
            Action::Idle
        },
        Message::RenameInput(value) => {
            app.renaming_value = value;
            Action::Idle
        },
        Message::RenameCancel => {
            app.renaming_addr = None;
            app.renaming_value = String::new();
            Action::Idle
        },
        Message::RenameSubmit(addr) => on_rename_submit(app, addr),
        Message::RemoveDevice(addr) => Action::Remove(addr),
        Message::ReconnectDevice(addr) => on_reconnect_device(app, addr),
        Message::ReconnectResult(Ok((addr, _found))) => {
            proof {
                keyed::lemma_remove_key(app.reconnecting@, addr@, addr@);
            }
            keyed::remove_first_key(&mut app.reconnecting, &addr);
            Action::LoadDevices
        },
        Message::DisconnectResult(reply) | Message::RenameResult(reply) | Message::RemoveResult(
            reply,
        ) => match reply {
            Ok(()) => Action::LoadDevices,
            Err(e) => {
                app.last_error = Some(e);
                Action::Idle
            },
        },
        Message::ReconnectResult(Err(e)) => {
            app.last_error = Some(e);
            Action::Idle
        },
    }
}

/// The state as the applet's behaviour sees it: strings by their
/// characters where only those are fixed.
pub struct AppModelView {
    pub popup: Option<u64>,
    pub connected: Seq<ConnectedDevice>,
    pub paired: Seq<(String, String)>,
    pub paired_names: Seq<(String, String)>,
    pub reconnecting: Seq<(String, u64)>,
    pub renaming_addr: Option<String>,
    pub renaming_value: Seq<char>,
    pub last_error: Option<ErrorMessage>,
}

/// The view of a state.
pub open spec fn model_view(m: AppModel) -> AppModelView {
    AppModelView {
        popup: m.popup,
        connected: m.connected@,
        paired: m.paired@,
        paired_names: m.paired_names@,
        reconnecting: m.reconnecting@,
        renaming_addr: m.renaming_addr,
        renaming_value: m.renaming_value@,
        last_error: m.last_error,
    }
}

/// An action as the program around the applet sees it; a new name by its
/// characters.
pub enum ActionView {
    Idle,
    LoadDevices,
    Disconnect(String),
    Rename(String, Seq<char>),
    Remove(String),
    Reconnect(String, String),
    OpenPopup(u64),
    ClosePopup(u64),
}

/// The view of an action.
pub open spec fn action_view(a: Action) -> ActionView {
    match a {
        Action::Idle => ActionView::Idle,
        Action::LoadDevices => ActionView::LoadDevices,
        Action::Disconnect(addr) => ActionView::Disconnect(addr),
        Action::Rename(addr, name) => ActionView::Rename(addr, name@),
        Action::Remove(addr) => ActionView::Remove(addr),
        Action::Reconnect(addr, name) => ActionView::Reconnect(addr, name),
        Action::OpenPopup(h) => ActionView::OpenPopup(h),
        Action::ClosePopup(h) => ActionView::ClosePopup(h),
    }
}

/// `update` is deterministic: from one state and one message, any two runs
/// leave the same state and ask for the same work.
pub proof fn law_update_deterministic(
    old: AppModel,
    message: Message,
    new1: AppModel,
    action1: Action,
    new2: AppModel,
    action2: Action,
)
    requires
        update_post(old, message, new1, action1),
        update_post(old, message, new2, action2),
    ensures
        model_view(new1) == model_view(new2),
        action_view(action1) == action_view(action2),
{
}

/// Every countdown is at most `bound` seconds.
pub open spec fn countdowns_at_most(s: Seq<(String, u64)>, bound: u64) -> bool {
    forall|i: int| 0 <= i < s.len() ==> #[trigger] s[i].1 <= bound
}

proof fn lemma_countdown_bounded(s: Seq<(String, u64)>, bound: u64)
    requires
        countdowns_at_most(s, bound),
    ensures
        countdowns_at_most(countdown(s), bound),
    decreases s.len(),
{
    if s.len() > 0 {
        let p = s.drop_last();
        assert(countdowns_at_most(p, bound)) by {
            assert forall|i: int| 0 <= i < p.len() implies #[trigger] p[i].1 <= bound by {
                assert(p[i] == s[i]);
            }
        }
        lemma_countdown_bounded(p, bound);
        assert(s[s.len() - 1].1 <= bound);
    }
}

/// Whatever the message, `update` keeps every reconnect countdown at or
/// below `RECONNECT_SECONDS` when it was so before.
pub proof fn law_countdowns_stay_bounded(
    old: AppModel,
    message: Message,
    new: AppModel,
    action: Action,
)
    requires
        update_post(old, message, new, action),
        countdowns_at_most(old.reconnecting@, RECONNECT_SECONDS),
    ensures
        countdowns_at_most(new.reconnecting@, RECONNECT_SECONDS),
{
    let s = old.reconnecting@;
    match message {
        Message::Tick => {
            lemma_countdown_bounded(s, RECONNECT_SECONDS);
        },
        Message::ReconnectDevice(addr) => {
            let t = keyed::upsert(s, addr, RECONNECT_SECONDS);
            assert forall|i: int| 0 <= i < t.len() implies #[trigger] t[i].1
                <= RECONNECT_SECONDS by {
                if keyed::has_key(s, addr@) {
                    keyed::lemma_first_key_index(s, addr@);
                    if i != keyed::first_key_index(s, addr@) {
                        assert(t[i] == s[i]);
                        assert(s[i].1 <= RECONNECT_SECONDS);
                    }
                } else if i < s.len() {
                    assert(t[i] == s[i]);
                    assert(s[i].1 <= RECONNECT_SECONDS);
                }
            }
        },
        Message::ReconnectResult(Ok((addr, _found))) => {
            let t = keyed::remove_key(s, addr@);
            assert forall|i: int| 0 <= i < t.len() implies #[trigger] t[i].1
                <= RECONNECT_SECONDS by {
                if keyed::has_key(s, addr@) {
                    keyed::lemma_first_key_index(s, addr@);
                    let f = keyed::first_key_index(s, addr@);
                    if i < f {
                        assert(t[i] == s[i]);
                        assert(s[i].1 <= RECONNECT_SECONDS);
                    } else {
                        assert(t[i] == s[i + 1]);
                        assert(s[i + 1].1 <= RECONNECT_SECONDS);
                    }
                }
            }
        },
        _ => {},
    }
}

/// What a countdown started `j` ticks ago shows.
pub open spec fn started_countdown_after(j: nat) -> Option<u64> {
    if j <= RECONNECT_SECONDS {
        Some((RECONNECT_SECONDS - j) as u64)
    } else {
        None
    }
}

proof fn lemma_reconnect_ticks(
    states: Seq<AppModel>,
    actions: Seq<Action>,
    addr: String,
    k: nat,
    j: nat,
)
    requires
        states.len() == k + 2,
        actions.len() == k + 1,
        keyed::keys_distinct(states[0].reconnecting@),
        update_post(states[0], Message::ReconnectDevice(addr), states[1], actions[0]),
        forall|i: int|
            1 <= i <= k ==> #[trigger] update_post(states[i], Message::Tick, states[i + 1], actions[i]),
        j <= k,
    ensures
        keyed::keys_distinct(states[j + 1int].reconnecting@),
        keyed::lookup(states[j + 1int].reconnecting@, addr@) == started_countdown_after(j),
    decreases j,
{
    if j == 0 {
        keyed::lemma_upsert(states[0].reconnecting@, addr, RECONNECT_SECONDS, addr@);
    } else {
        lemma_reconnect_ticks(states, actions, addr, k, (j - 1) as nat);
        assert(update_post(states[j as int], Message::Tick, states[j + 1int], actions[j as int]));
        law_tick_counts_down(states[j as int].reconnecting@, addr@);
    }
}

/// A reconnect followed by `k` ticks and no other message leaves the device
/// `60 - k` seconds while `k` is at most 60, and no countdown after that.
pub proof fn law_reconnect_then_ticks(
    states: Seq<AppModel>,
    actions: Seq<Action>,
    addr: String,
    k: nat,
)
    requires
        states.len() == k + 2,
        actions.len() == k + 1,
        states[0].wf(),
        update_post(states[0], Message::ReconnectDevice(addr), states[1], actions[0]),
        forall|i: int|
            1 <= i <= k ==> #[trigger] update_post(states[i], Message::Tick, states[i + 1], actions[i]),
    ensures
        k <= RECONNECT_SECONDS ==> keyed::lookup(states[k + 1int].reconnecting@, addr@) == Some(
            (RECONNECT_SECONDS - k) as u64,
        ),
        k > RECONNECT_SECONDS ==> !keyed::has_key(states[k + 1int].reconnecting@, addr@),
{
    lemma_reconnect_ticks(states, actions, addr, k, k);
}

/// On the periodic refresh the state stays as it is, and the device lists
/// are reloaded exactly when no device is being reconnected and no rename
/// is in progress, whatever else the state holds (popup, lists, error).
pub proof fn law_refresh_reloads_when_idle(old: AppModel, new: AppModel, action: Action)
    requires
        update_post(old, Message::Refresh, new, action),
    ensures
        new == old,
        action is LoadDevices <==> (old.reconnecting@.len() == 0 && old.renaming_addr is None),
        !(action is LoadDevices) ==> action is Idle,
{
}

} // verus!
