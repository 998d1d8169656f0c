//! The serve configuration: knobs, plans, profiles and the cache pools of a live engine.

use vstd::prelude::*;
use vstd::string::*;
use crate::actions::{
    ask, asks, honest, hushed, outcome_view, push_line, warn_off, Clock, Done, DoneView, Outcome, Refusal,
    RefusalView, Step,
};
use crate::cache_pools::{
    current, current_size, geometry, has_pool, pool_max, pool_min, present, Pool,
};
use crate::config::{
    law_a_profile_put_in_is_found, profile_named, slot_of, upserted, Profile, ProfileView,
    ProfilesView,
};
use crate::ft::types::CacheGeometry;
use crate::knobs::{
    after_set, find_knob, is_on, is_row, knob, knob_row, law_options_are_distinct, validate_value, value_error, value_of, Kind, Knob,
};
use crate::plan::{applied, schema_edits, Plan};
use crate::state::{
    App, AppView, Confirm, ConfirmAction, ConfirmActionView, ConfirmView, Effect, EffectView,
    Pending, ToastKind,
};
use crate::text::{
    cat2, cat3, dec, decimal, lemma_words_are_words, opt_str, opt_text, same, strs, texts, trim, trimmed, words, words_of,
};
use crate::util::{count, count_text, max, min};

verus! {

// ---------------------------------------------------------------- knobs

/// What setting a knob did: whether it is now set, and which mutually exclusive knobs
/// were cleared to make room for it.
#[derive(Debug, Clone, Default, PartialEq, Eq)]
pub struct KnobSet {
    pub set: bool,
    pub cleared: Vec<String>,
}

pub struct KnobSetView {
    pub set: bool,
    pub cleared: Seq<Seq<char>>,
}

impl View for KnobSet {
    type V = KnobSetView;

    open spec fn view(&self) -> KnobSetView {
        KnobSetView { set: self.set, cleared: texts(self.cleared@) }
    }
}

pub open spec fn knob_outcome(r: Result<KnobSet, Refusal>) -> Result<KnobSetView, RefusalView> {
    match r {
        Ok(k) => Ok(k@),
        Err(e) => Err(e@),
    }
}

pub open spec fn no_knob(key: Seq<char>) -> RefusalView {
    hushed(404, "no knob named '"@ + key + "'"@)
}

fn knob_or_refuse(key: &str) -> (r: Result<Knob, Refusal>)
    ensures
        match r {
            Ok(k) => find_knob(key@) == Some(k),
            Err(e) => find_knob(key@) is None && e@ == no_knob(key@),
        },
{
    match knob(key) {
        Some(k) => Ok(k),
        None => Err(Refusal::quiet(404, cat3("no knob named '", key, "'").as_str())),
    }
}

/// Those of `keys`, other than `key`, that were set and no longer are.
pub open spec fn lost(
    keys: Seq<Seq<char>>,
    key: Seq<char>,
    before: Map<Seq<char>, Seq<char>>,
    after: Map<Seq<char>, Seq<char>>,
) -> Seq<Seq<char>>
    decreases keys.len(),
{
    if keys.len() == 0 {
        Seq::empty()
    } else {
        let head = lost(keys.drop_last(), key, before, after);
        let k = keys.last();
        if k != key && before.dom().contains(k) && !after.dom().contains(k) {
            head.push(k)
        } else {
            head
        }
    }
}

/// The state once a knob is cleared. One that is not set is left alone, and unsaid.
pub open spec fn knob_cleared(a: AppView, k: Knob, announce: bool) -> AppView {
    if !a.serve.dom().contains(k.key@) {
        a
    } else {
        let b = AppView { serve: a.serve.remove(k.key@), ..a };
        if announce {
            b.says(k.label@ + " reset to its default"@, ToastKind::Info)
        } else {
            b
        }
    }
}

/// Clear a knob. `announce` is what separates `x` on the Serve tab, which says so, from
/// committing an empty editor, which never has.
pub fn unset_knob(app: &mut App, k: &Knob, announce: bool)
    ensures
        final(app)@ == knob_cleared(old(app)@, *k, announce),
{
    if !app.serve.is_set(k.key) {
        return;
    }
    app.serve.unset(k.key);
    if announce {
        app.info(cat2(k.label, " reset to its default").as_str());
    }
}

/// What is left of a given value: nothing, where none was given.
pub open spec fn given(value: Option<Seq<char>>) -> Seq<char> {
    match value {
        Some(v) => trimmed(v),
        None => Seq::empty(),
    }
}

pub open spec fn knob_set(a: AppView, key: Seq<char>, value: Option<Seq<char>>) -> (
    AppView,
    Result<KnobSetView, RefusalView>,
) {
    let v = given(value);
    match find_knob(key) {
        None => (a, Err(no_knob(key))),
        Some(k) => if v.len() == 0 {
            (
                knob_cleared(a, k, true),
                Ok(KnobSetView { set: false, cleared: Seq::empty() }),
            )
        } else {
            match value_error(k, v) {
                // A rejected value belongs against the field that produced it.
                Some(why) => (a, Err(hushed(409, k.flag@ + ": "@ + why))),
                None => {
                    let after = after_set(a.serve, k.key@, v);
                    (
                        AppView { serve: after, ..a },
                        Ok(
                            KnobSetView {
                                set: after.dom().contains(k.key@),
                                cleared: lost(k.exclusive_with.keys(), k.key@, a.serve, after),
                            },
                        ),
                    )
                },
            }
        },
    }
}

/// Set a knob, or unset it when `value` is `None` or empty.
pub fn set_knob(app: &mut App, key: &str, value: Option<&str>) -> (r: Result<KnobSet, Refusal>)
    ensures
        (final(app)@, knob_outcome(r)) == knob_set(old(app)@, key@, opt_str(value)),
{
    let k = knob_or_refuse(key)?;
    let value = match value {
        Some(v) => trim(v),
        None => String::new(),
    };
    if value.as_str().is_empty() {
        unset_knob(app, &k, true);
        let none: Vec<String> = Vec::new();
        assert(texts(none@) =~= Seq::<Seq<char>>::empty());
        return Ok(KnobSet { set: false, cleared: none });
    }
    if let Some(msg) = validate_value(&k, value.as_str()) {
        return Err(Refusal::quiet(409, cat3(k.flag, ": ", msg.as_str()).as_str()));
    }
    // The new value clears whatever it excludes; report which, since the browser's other
    // fields have just been emptied under it.
    let others = k.exclusive_with.members();
    let before = app.serve.clone();
    app.serve.set(k.key, value.as_str());
    let ghost all = k.exclusive_with.keys();
    let mut cleared: Vec<String> = Vec::new();
    let mut i: usize = 0;
    assert(all.take(0) =~= Seq::<Seq<char>>::empty());
    assert(texts(cleared@) =~= Seq::<Seq<char>>::empty());
    while i < others.len()
        invariant
            i <= others.len(),
            strs(others@) == all,
            texts(cleared@) == lost(all.take(i as int), k.key@, before@, app.serve@),
        decreases others.len() - i,
    {
        let other = others[i];
        assert(all.take(i + 1).drop_last() =~= all.take(i as int));
        assert(all.take(i + 1).last() == other@);
        if !same(other, k.key) && before.is_set(other) && !app.serve.is_set(other) {
            push_line(&mut cleared, other);
        }
        i = i + 1;
    }
    assert(all.take(i as int) =~= all);
    // Read back rather than predicted: a flag given "false" is unset, and clears nothing.
    Ok(KnobSet { set: app.serve.is_set(k.key), cleared })
}

pub open spec fn flag_set(a: AppView, k: Knob, wanted: bool) -> AppView {
    (AppView {
        serve: if wanted {
            after_set(a.serve, k.key@, "true"@)
        } else {
            a.serve.remove(k.key@)
        },
        ..a
    }).says(
        k.label@ + " "@ + (if wanted {
            "on"@
        } else {
            "off"@
        }),
        ToastKind::Info,
    )
}

pub open spec fn bool_outcome(r: Result<bool, Refusal>) -> Result<bool, RefusalView> {
    match r {
        Ok(b) => Ok(b),
        Err(e) => Err(e@),
    }
}

pub open spec fn flag_toggled(a: AppView, key: Seq<char>, on: Option<bool>) -> (
    AppView,
    Result<bool, RefusalView>,
) {
    match find_knob(key) {
        None => (a, Err(no_knob(key))),
        Some(k) => if !(k.kind is Flag) {
            let why = k.flag@ + " is not a flag"@;
            (
                a.says(why, ToastKind::Warn),
                Err(crate::actions::loud(409, why)),
            )
        } else {
            let wanted = match on {
                Some(b) => b,
                None => !is_on(a.serve, k.key@),
            };
            (flag_set(a, k, wanted), Ok(wanted))
        },
    }
}

/// Toggle a flag knob, or set it outright. Says what it did, as `Enter` on the Serve tab
/// always has.
pub fn toggle_flag(app: &mut App, key: &str, on: Option<bool>) -> (r: Result<bool, Refusal>)
    ensures
        (final(app)@, bool_outcome(r)) == flag_toggled(old(app)@, key@, on),
{
    let k = knob_or_refuse(key)?;
    if !matches!(k.kind, Kind::Flag) {
        return Err(warn_off(app, 409, cat2(k.flag, " is not a flag")));
    }
    let wanted = match on {
        Some(b) => b,
        None => !app.serve.flag(k.key),
    };
    if wanted {
        app.serve.set(k.key, "true");
    } else {
        app.serve.unset(k.key);
    }
    app.info(
        cat3(
            k.label,
            " ",
            if wanted {
                "on"
            } else {
                "off"
            },
        ).as_str(),
    );
    Ok(wanted)
}

/// Where the first option equal to `v` stands; the length when there is none.
pub open spec fn place_of(options: Seq<Seq<char>>, v: Seq<char>) -> nat
    decreases options.len(),
{
    if options.len() == 0 || options[0] == v {
        0
    } else {
        1 + place_of(options.drop_first(), v)
    }
}

/// The option that a step of `delta` leads to from `now`, wrapping through unset so there is
/// always a way back to the default.
pub open spec fn stepped(options: Seq<Seq<char>>, now: Option<Seq<char>>, delta: int) -> Option<
    Seq<char>,
> {
    let i = match now {
        Some(v) => place_of(options, v),
        None => options.len(),
    };
    if i < options.len() {
        if 0 <= i + delta < options.len() {
            Some(options[i + delta])
        } else {
            None
        }
    } else if delta > 0 {
        Some(options[0])
    } else {
        Some(options.last())
    }
}

fn find_place(options: &Vec<String>, v: &str) -> (r: usize)
    ensures
        r == place_of(texts(options@), v@),
        r <= options@.len(),
{
    let ghost all = texts(options@);
    let mut i: usize = 0;
    assert(all.skip(0) =~= all);
    while i < options.len()
        invariant
            i <= options.len(),
            all == texts(options@),
            place_of(all, v@) == i + place_of(all.skip(i as int), v@),
        decreases options.len() - i,
    {
        assert(all.skip(i as int)[0] == options@[i as int]@);
        if same(options[i].as_str(), v) {
            return i;
        }
        assert(all.skip(i as int).drop_first() =~= all.skip(i + 1));
        i = i + 1;
    }
    i
}

fn step_option(options: &Vec<String>, now: Option<&str>, delta: isize) -> (r: Option<usize>)
    requires
        options@.len() > 0,
    ensures
        match r {
            Some(i) => i < options@.len() && stepped(
                texts(options@),
                opt_str(now),
                delta as int,
            ) == Some(options@[i as int]@),
            None => stepped(texts(options@), opt_str(now), delta as int) is None,
        },
{
    let i: usize = match now {
        Some(v) => find_place(options, v),
        None => options.len(),
    };
    if i < options.len() {
        let n: i128 = i as i128 + delta as i128;
        if n < 0 || n >= options.len() as i128 {
            None
        } else {
            Some(n as usize)
        }
    } else if delta > 0 {
        Some(0)
    } else {
        Some(options.len() - 1)
    }
}

/// A configuration with a knob at `value`, or without it.
pub open spec fn put(
    m: Map<Seq<char>, Seq<char>>,
    key: Seq<char>,
    value: Option<Seq<char>>,
) -> Map<Seq<char>, Seq<char>> {
    match value {
        Some(v) => after_set(m, key, v),
        None => m.remove(key),
    }
}

pub open spec fn text_outcome(r: Result<Option<String>, Refusal>) -> Result<
    Option<Seq<char>>,
    RefusalView,
> {
    match r {
        Ok(s) => Ok(opt_text(s)),
        Err(e) => Err(e@),
    }
}

pub open spec fn knob_cycled(a: AppView, key: Seq<char>, delta: int) -> (
    AppView,
    Result<Option<Seq<char>>, RefusalView>,
) {
    match find_knob(key) {
        None => (a, Err(no_knob(key))),
        Some(k) => match k.kind {
            Kind::Flag => {
                let serve = if is_on(a.serve, k.key@) {
                    a.serve.remove(k.key@)
                } else {
                    after_set(a.serve, k.key@, "true"@)
                };
                (
                    AppView { serve, ..a },
                    Ok(
                        if is_on(serve, k.key@) {
                            Some("true"@)
                        } else {
                            None
                        },
                    ),
                )
            },
            Kind::Choice(options) => {
                let all = words_of(options@);
                let now = value_of(a.serve, k.key@);
                if all.len() == 0 {
                    (a, Ok(now))
                } else {
                    let next = stepped(all, now, delta);
                    (AppView { serve: put(a.serve, k.key@, next), ..a }, Ok(next))
                }
            },
            _ => {
                let why = k.flag@ + " is not a choice knob"@;
                (a.says(why, ToastKind::Warn), Err(crate::actions::loud(409, why)))
            },
        },
    }
}

/// Walk a choice knob's options, wrapping through unset so there is always a way back to
/// the default. A flag knob is toggled instead, which is what the `Space` key does.
pub fn cycle_knob(app: &mut App, key: &str, delta: isize) -> (r: Result<Option<String>, Refusal>)
    ensures
        (final(app)@, text_outcome(r)) == knob_cycled(old(app)@, key@, delta as int),
{
    let k = knob_or_refuse(key)?;
    match k.kind {
        Kind::Flag => {
            app.serve.toggle_flag(k.key);
            if app.serve.flag(k.key) {
                Ok(Some("true".to_owned()))
            } else {
                Ok(None)
            }
        },
        Kind::Choice(options) => {
            let all = words(options);
            assert(texts(all@).len() == all@.len());
            if all.len() == 0 {
                return Ok(
                    match app.serve.get(k.key) {
                        Some(v) => Some(v.to_owned()),
                        None => None,
                    },
                );
            }
            let next = step_option(&all, app.serve.get(k.key), delta);
            match next {
                Some(i) => {
                    app.serve.set(k.key, all[i].as_str());
                    Ok(Some(all[i].clone()))
                },
                None => {
                    app.serve.unset(k.key);
                    Ok(None)
                },
            }
        },
        _ => Err(warn_off(app, 409, cat2(k.flag, " is not a choice knob"))),
    }
}

// ---------------------------------------------------------------- plans

pub open spec fn plan_built(a: AppView, built: Result<Plan, String>) -> (
    AppView,
    Result<bool, RefusalView>,
) {
    match built {
        Ok(plan) => if plan@.steps.len() == 0 && plan@.unpriced is None {
            (
                a.says(
                    "nothing to change — this configuration is already optimal here"@,
                    ToastKind::Success,
                ),
                Ok(a.plan is Some),
            )
        } else {
            (AppView { plan: Some(plan@), ..a }, Ok(true))
        },
        Err(why) => {
            let text = "cannot plan: "@ + why@;
            (
                a.says(text, ToastKind::Warn),
                Err(crate::actions::loud(409, text)),
            )
        },
    }
}

/// Show what this hardware would prefer, before changing anything.
///
/// Planning is pure and instant — every input is already in memory — so this needs no
/// job, no spinner and no confirmation. `built` is the plan for the current configuration.
/// Returns whether a plan is now held.
pub fn build_plan(app: &mut App, built: Result<Plan, String>) -> (r: Result<bool, Refusal>)
    ensures
        (final(app)@, bool_outcome(r)) == plan_built(old(app)@, built),
{
    match built {
        Ok(plan) => {
            if plan.is_empty() && plan.unpriced.is_none() {
                app.success("nothing to change — this configuration is already optimal here");
                return Ok(app.plan.is_some());
            }
            app.plan = Some(plan);
            Ok(true)
        },
        Err(why) => Err(warn_off(app, 409, cat2("cannot plan: ", why.as_str()))),
    }
}

/// What planning returns is whether a plan is held from then on.
pub proof fn law_planning_reports_whether_a_plan_is_held(a: AppView, built: Result<Plan, String>)
    ensures
        plan_built(a, built).1 matches Ok(held) ==> held == (plan_built(a, built).0.plan is Some),
{
}

pub open spec fn count_outcome(r: Result<usize, Refusal>) -> Result<nat, RefusalView> {
    match r {
        Ok(n) => Ok(n as nat),
        Err(e) => Err(e@),
    }
}

pub open spec fn plan_applied(a: AppView) -> (AppView, Result<nat, RefusalView>) {
    match a.plan {
        None => (
            a.says("no plan is held"@, ToastKind::Warn),
            Err(crate::actions::loud(409, "no plan is held"@)),
        ),
        Some(plan) => {
            let (serve, changed) = applied(a.serve, schema_edits(plan.steps));
            let b = AppView { plan: None, serve, ..a };
            (
                if changed == 0 {
                    b.says("the configuration already matched the plan"@, ToastKind::Info)
                } else {
                    b.says(
                        "applied "@ + dec(changed) + " change"@ + (if changed == 1 {
                            ""@
                        } else {
                            "s"@
                        }) + " — press g to serve with it"@,
                        ToastKind::Success,
                    )
                },
                Ok(changed),
            )
        },
    }
}

/// Fold the plan's edits into the serve configuration.
pub fn apply_plan(app: &mut App) -> (r: Result<usize, Refusal>)
    ensures
        (final(app)@, count_outcome(r)) == plan_applied(old(app)@),
{
    let mut held: Option<Plan> = None;
    core::mem::swap(&mut held, &mut app.plan);
    let plan = match held {
        Some(p) => p,
        None => {
            return Err(warn_off(app, 409, "no plan is held".to_owned()));
        },
    };
    let changed = plan.apply(&mut app.serve);
    if changed == 0 {
        app.info("the configuration already matched the plan");
    } else {
        let text = {
            let mut s = "applied ".to_owned();
            s.append(decimal(changed as u64).as_str());
            s.append(" change");
            s.append(
                if changed == 1 {
                    ""
                } else {
                    "s"
                },
            );
            s.append(" — press g to serve with it");
            s
        };
        app.success(text.as_str());
    }
    Ok(changed)
}

pub fn dismiss_plan(app: &mut App)
    ensures
        final(app)@ == (AppView { plan: None, ..old(app)@ }),
{
    app.plan = None;
}

// ---------------------------------------------------------------- profiles

/// The state once the configuration is saved under `name`.
pub open spec fn profile_saved(a: AppView, name: Seq<char>) -> AppView {
    let existed = profile_named(a.profiles.items, name) is Some;
    let items = upserted(
        a.profiles.items,
        ProfileView { name, notes: Seq::empty(), serve: a.serve },
    );
    (AppView {
        profiles: ProfilesView { items, last_used: Some(name) },
        profile_index: slot_of(items, name) as usize,
        ..a
    }).wants(EffectView::SaveProfiles).says(
        "profile '"@ + name + (if existed {
            "' updated"@
        } else {
            "' saved"@
        }),
        ToastKind::Success,
    )
}

fn put_profile(app: &mut App, name: &str)
    ensures
        final(app)@ == (AppView {
            profiles: ProfilesView {
                items: upserted(
                    old(app)@.profiles.items,
                    ProfileView { name: name@, notes: Seq::empty(), serve: old(app)@.serve },
                ),
                last_used: Some(name@),
            },
            ..old(app)@
        }),
{
    let p = Profile {
        name: name.to_owned(),
        notes: String::new(),
        serve: app.serve.clone(),
    };
    assert(p@.notes =~= Seq::<char>::empty());
    app.profiles.upsert(p);
    app.profiles.last_used = Some(name.to_owned());
}

pub open spec fn profile_save_asked(a: AppView, name: Seq<char>) -> (
    AppView,
    Result<bool, RefusalView>,
) {
    if trimmed(name).len() == 0 {
        (a, Err(hushed(400, "a profile needs a name"@)))
    } else {
        (
            profile_saved(a, trimmed(name)),
            Ok(profile_named(a.profiles.items, trimmed(name)) is None),
        )
    }
}

/// Save the current serve configuration under `name`. Returns whether it is new.
pub fn save_profile(app: &mut App, name: &str) -> (r: Result<bool, Refusal>)
    ensures
        (final(app)@, bool_outcome(r)) == profile_save_asked(old(app)@, name@),
{
    let name = trim(name);
    if name.as_str().is_empty() {
        // Field-shaped, like every other empty-input refusal.
        return Err(Refusal::quiet(400, "a profile needs a name"));
    }
    let existed = app.profiles.get(name.as_str()).is_some();
    put_profile(app, name.as_str());
    app.profile_index = app.profiles.slot(name.as_str());
    app.want(Effect::SaveProfiles);
    app.success(
        cat3(
            "profile '",
            name.as_str(),
            if existed {
                "' updated"
            } else {
                "' saved"
            },
        ).as_str(),
    );
    Ok(!existed)
}

pub open spec fn no_profile(name: Seq<char>) -> RefusalView {
    hushed(404, "no profile named '"@ + name + "'"@)
}

fn profile_missing(name: &str) -> (r: Refusal)
    ensures
        r@ == no_profile(name@),
{
    Refusal::quiet(404, cat3("no profile named '", name, "'").as_str())
}

pub open spec fn profile_loaded(a: AppView, name: Seq<char>) -> Step {
    match profile_named(a.profiles.items, name) {
        None => (a, Err(no_profile(name))),
        Some(p) => (
            (AppView {
                serve: p.serve,
                profiles: ProfilesView { last_used: Some(p.name), ..a.profiles },
                ..a
            }).wants(EffectView::SaveProfiles).says(
                "loaded profile '"@ + p.name + "'"@,
                ToastKind::Success,
            ),
            Ok(DoneView::Finished),
        ),
    }
}

pub fn load_profile(app: &mut App, name: &str) -> (r: Outcome)
    ensures
        (final(app)@, outcome_view(r)) == profile_loaded(old(app)@, name@),
{
    let (serve, name) = match app.profiles.get(name) {
        Some(p) => (p.serve.clone(), p.name.clone()),
        None => {
            return Err(profile_missing(name));
        },
    };
    app.serve = serve;
    app.profiles.last_used = Some(name.clone());
    app.want(Effect::SaveProfiles);
    app.success(cat3("loaded profile '", name.as_str(), "'").as_str());
    Ok(Done::Finished)
}

pub open spec fn profile_deletion_asked(a: AppView, name: Seq<char>, clock: Clock) -> Step {
    match profile_named(a.profiles.items, name) {
        None => (a, Err(no_profile(name))),
        Some(p) => asks(
            a,
            ConfirmView {
                title: "Delete profile"@,
                body: seq!["Delete the saved profile '"@ + p.name + "'?"@],
                action: ConfirmActionView::DeleteProfile(p.name),
                danger: true,
            },
            clock,
        ),
    }
}

/// Ask before a saved profile is deleted.
pub fn delete_profile(app: &mut App, name: &str, clock: Clock) -> (r: Outcome)
    requires
        old(app)@.has_room(),
    ensures
        (final(app)@, outcome_view(r)) == profile_deletion_asked(old(app)@, name@, clock),
{
    let name = match app.profiles.get(name) {
        Some(p) => p.name.clone(),
        None => {
            return Err(profile_missing(name));
        },
    };
    let body: Vec<String> = vec![cat3("Delete the saved profile '", name.as_str(), "'?")];
    assert(texts(body@) =~= seq!["Delete the saved profile '"@ + name@ + "'?"@]);
    let confirm = Confirm::new(
        "Delete profile",
        body,
        ConfirmAction::DeleteProfile(name),
        true,
    );
    Ok(ask(app, confirm, clock))
}

/// Say that the profiles could not be saved.
pub fn profiles_not_saved(app: &mut App, e: &str)
    ensures
        final(app)@ == old(app)@.says("could not save profiles: "@ + e@, ToastKind::Error),
{
    app.error(cat2("could not save profiles: ", e).as_str());
}

// ---------------------------------------------------------------- cache

pub open spec fn no_geometry() -> Seq<char> {
    "cache geometry is only available while the engine is serving"@
}

pub open spec fn no_pool(pool: Pool) -> RefusalView {
    hushed(404, "this model exposes no "@ + pool.label_text() + " pool"@)
}

/// What is staged when `value` is asked of a pool. "Back to where it started" is not an edit.
pub open spec fn staged(geo: CacheGeometry, pool: Pool, value: Option<u64>) -> Option<u64> {
    match value {
        None => None,
        Some(v) => {
            let size = min(max(v as nat, pool_min(geo, pool)), pool_max(geo, pool)) as u64;
            if size == current_size(geo, pool) {
                None
            } else {
                Some(size)
            }
        },
    }
}

pub open spec fn size_outcome(r: Result<Option<u64>, Refusal>) -> Result<
    Option<u64>,
    RefusalView,
> {
    match r {
        Ok(n) => Ok(n),
        Err(e) => Err(e@),
    }
}

pub open spec fn cache_staged(a: AppView, pool: Pool, value: Option<u64>) -> (
    AppView,
    Result<Option<u64>, RefusalView>,
) {
    match a.geometry {
        None => (
            a.says(no_geometry(), ToastKind::Warn),
            Err(crate::actions::loud(503, no_geometry())),
        ),
        Some(geo) => if !has_pool(geo, pool) {
            (a, Err(no_pool(pool)))
        } else {
            let size = staged(geo, pool, value);
            (AppView { pending: a.pending.with(pool, size), ..a }, Ok(size))
        },
    }
}

/// Stage a pool size. `None` clears the edit, which is the `r` key.
pub fn set_cache_pending(app: &mut App, pool: Pool, value: Option<u64>) -> (r: Result<
    Option<u64>,
    Refusal,
>)
    requires
        old(app)@.geometry is Some ==> old(app)@.geometry->0.counted(),
    ensures
        (final(app)@, size_outcome(r)) == cache_staged(old(app)@, pool, value),
{
    let bounds = match &app.geometry {
        Some(geo) => {
            if !present(geo, pool) {
                return Err(
                    Refusal::quiet(
                        404,
                        cat3("this model exposes no ", pool.label(), " pool").as_str(),
                    ),
                );
            }
            // The same bounds the Cache view draws and the snapshot sends: one conversion
            // from FreeToken's published limits into the unit `/v1/cache/rebuild` accepts.
            Some(geometry(geo, pool))
        },
        None => None,
    };
    let bounds = match bounds {
        Some(b) => b,
        None => {
            return Err(
                warn_off(
                    app,
                    503,
                    "cache geometry is only available while the engine is serving".to_owned(),
                ),
            );
        },
    };
    let size = match value {
        None => None,
        Some(v) => {
            let n = bounds.clamp(v);
            if n == bounds.current {
                None
            } else {
                Some(n)
            }
        },
    };
    app.pending.set_pending(pool, size);
    Ok(size)
}

pub fn reset_cache(app: &mut App)
    ensures
        final(app)@ == (AppView { pending: Pending::none(), ..old(app)@ }),
{
    app.pending = Pending::empty();
}

/// The line that says what is staged for a pool.
pub open spec fn staged_line(geo: CacheGeometry, pending: Pending, pool: Pool) -> Seq<Seq<char>> {
    match pending.of(pool) {
        Some(v) if has_pool(geo, pool) => seq![
            "  "@ + pool.label_text() + ": "@ + count_text(current_size(geo, pool) as nat)
                + " → "@ + count_text(v as nat) + " "@ + pool.unit_text(),
        ],
        _ => Seq::empty(),
    }
}

pub open spec fn rebuild_question(geo: CacheGeometry, pending: Pending, active: u64) -> ConfirmView {
    ConfirmView {
        title: "Rebuild cache"@,
        body: seq!["Resize the cache pools on the running engine?"@, ""@] + staged_line(
            geo,
            pending,
            Pool::Moe,
        ) + staged_line(geo, pending, Pool::Kv) + staged_line(geo, pending, Pool::Mamba)
            + staged_line(geo, pending, Pool::Swa) + seq![
            ""@,
            if active > 0 {
                dec(active as nat)
                    + " request(s) are in flight. The engine only rebuilds while idle, so this will be rejected until they finish."@
            } else {
                "Weights stay loaded; only the pools are rebuilt."@
            },
        ],
        action: ConfirmActionView::ApplyCacheRebuild,
        danger: false,
    }
}

fn push_staged(body: &mut Vec<String>, geo: &CacheGeometry, pending: &Pending, pool: Pool)
    requires
        geo.counted(),
    ensures
        texts(final(body)@) == texts(old(body)@) + staged_line(*geo, *pending, pool),
{
    let ghost before = texts(body@);
    if let Some(v) = pending.pending_for(pool) {
        if present(geo, pool) {
            let mut line = "  ".to_owned();
            line.append(pool.label());
            line.append(": ");
            line.append(count(current(geo, pool)).as_str());
            line.append(" → ");
            line.append(count(v).as_str());
            line.append(" ");
            line.append(pool.unit());
            push_line(body, line.as_str());
        }
    }
    assert(texts(body@) =~= before + staged_line(*geo, *pending, pool));
}

fn rebuild_confirm(geo: &CacheGeometry, pending: &Pending, active: u64) -> (r: Confirm)
    requires
        geo.counted(),
    ensures
        r@ == rebuild_question(*geo, *pending, active),
{
    let mut body: Vec<String> = vec![
        "Resize the cache pools on the running engine?".to_owned(),
        "".to_owned(),
    ];
    assert(texts(body@) =~= seq!["Resize the cache pools on the running engine?"@, ""@]);
    push_staged(&mut body, geo, pending, Pool::Moe);
    push_staged(&mut body, geo, pending, Pool::Kv);
    push_staged(&mut body, geo, pending, Pool::Mamba);
    push_staged(&mut body, geo, pending, Pool::Swa);
    let ghost listed = texts(body@);
    let last = if active > 0 {
        cat2(
            decimal(active).as_str(),
            " request(s) are in flight. The engine only rebuilds while idle, so this will be rejected until they finish.",
        )
    } else {
        "Weights stay loaded; only the pools are rebuilt.".to_owned()
    };
    push_line(&mut body, "");
    push_line(&mut body, last.as_str());
    assert(texts(body@) =~= listed + seq![""@, last@]);
    Confirm::new("Rebuild cache", body, ConfirmAction::ApplyCacheRebuild, false)
}

pub open spec fn rebuild_asked(a: AppView, clock: Clock) -> Step {
    match a.geometry {
        None => crate::actions::warned(a, 503, no_geometry()),
        Some(geo) => if a.pending == Pending::none() {
            crate::actions::warned(a, 409, "nothing to apply"@)
        } else {
            asks(
                a,
                rebuild_question(geo, a.pending, a.active),
                clock,
            )
        },
    }
}

/// Ask before rebuilding the pools on a live engine.
pub fn apply_cache(app: &mut App, clock: Clock) -> (r: Outcome)
    requires
        old(app)@.has_room(),
        old(app)@.geometry is Some ==> old(app)@.geometry->0.counted(),
    ensures
        (final(app)@, outcome_view(r)) == rebuild_asked(old(app)@, clock),
{
    let confirm = match &app.geometry {
        Some(geo) => if app.pending.has_pending() {
            Ok(rebuild_confirm(geo, &app.pending, app.active))
        } else {
            Err(true)
        },
        None => Err(false),
    };
    match confirm {
        Ok(c) => Ok(ask(app, c, clock)),
        Err(true) => Err(warn_off(app, 409, "nothing to apply".to_owned())),
        Err(false) => Err(
            warn_off(
                app,
                503,
                "cache geometry is only available while the engine is serving".to_owned(),
            ),
        ),
    }
}

// ---------------------------------------------------------------- laws

/// Every refusal of an action on the serve configuration, its profiles or the cache says
/// truly whether it was also shown, and leaves nothing to be done.
pub proof fn law_serve_refusals_are_honest(
    a: AppView,
    key: Seq<char>,
    value: Option<Seq<char>>,
    on: Option<bool>,
    delta: int,
    built: Result<Plan, String>,
    name: Seq<char>,
    pool: Pool,
    size: Option<u64>,
    clock: Clock,
)
    ensures
        honest(a, knob_set(a, key, value)),
        honest(a, flag_toggled(a, key, on)),
        honest(a, knob_cycled(a, key, delta)),
        honest(a, plan_built(a, built)),
        honest(a, plan_applied(a)),
        honest(a, profile_save_asked(a, name)),
        honest(a, profile_loaded(a, name)),
        honest(a, profile_deletion_asked(a, name, clock)),
        honest(a, cache_staged(a, pool, size)),
        honest(a, rebuild_asked(a, clock)),
{
}

/// What is saved under a name is what loading that name brings back, whatever the
/// configuration became in between.
pub proof fn law_a_saved_profile_loads_back(
    a: AppView,
    name: Seq<char>,
    serve: Map<Seq<char>, Seq<char>>,
)
    ensures
        profile_loaded(AppView { serve, ..profile_saved(a, name) }, name).0.serve == a.serve,
        profile_loaded(AppView { serve, ..profile_saved(a, name) }, name).1 == Ok::<
            DoneView,
            RefusalView,
        >(DoneView::Finished),
{
    law_a_profile_put_in_is_found(
        a.profiles.items,
        ProfileView { name, notes: Seq::empty(), serve: a.serve },
    );
}

/// Setting a knob reports the truth: it says that the knob is set exactly when it is, and
/// with the value that was given.
pub proof fn law_what_is_reported_of_a_knob_holds(
    a: AppView,
    key: Seq<char>,
    value: Option<Seq<char>>,
)
    ensures
        ({
            let (b, r) = knob_set(a, key, value);
            r is Ok ==> r->Ok_0.set == b.serve.dom().contains(key)
        }),
        ({
            let (b, r) = knob_set(a, key, value);
            r is Ok && r->Ok_0.set ==> value_of(b.serve, key) == Some(given(value))
        }),
        ({
            let (b, r) = knob_set(a, key, value);
            r is Err ==> b == a
        }),
{
}

/// A pool size that is staged lies within the pool's bounds and differs from the size that
/// the pool has.
pub proof fn law_a_staged_size_is_an_edit_within_bounds(
    geo: CacheGeometry,
    pool: Pool,
    value: Option<u64>,
)
    requires
        geo.counted(),
    ensures
        staged(geo, pool, value) is Some ==> pool_min(geo, pool) <= staged(geo, pool, value)->0
            <= pool_max(geo, pool),
        staged(geo, pool, value) != Some(current_size(geo, pool)),
{
}

/// The state after `n` steps forward through a knob.
pub open spec fn walked(a: AppView, key: Seq<char>, n: nat) -> AppView
    decreases n,
{
    if n == 0 {
        a
    } else {
        knob_cycled(walked(a, key, (n - 1) as nat), key, 1).0
    }
}

/// The options of a choice knob, as many as the table lists.
pub open spec fn options_of(key: Seq<char>) -> Seq<Seq<char>> {
    match find_knob(key) {
        Some(k) => match k.kind {
            Kind::Choice(options) => words_of(options@),
            _ => Seq::empty(),
        },
        None => Seq::empty(),
    }
}

/// Walking forward through a choice knob from the default, call after call, gives every
/// option once, in order, and sets it; the call after the last one unsets the knob, so the
/// walk wraps through the default.
pub proof fn law_a_choice_knob_cycles(a: AppView, key: Seq<char>, i: nat)
    requires
        find_knob(key) is Some,
        find_knob(key)->0.kind is Choice,
        value_of(a.serve, key) is None,
        1 <= i <= options_of(key).len() + 1,
    ensures
        options_of(key).len() > 0,
        options_of(key).no_duplicates(),
        ({
            let due = if i <= options_of(key).len() {
                Some(options_of(key)[i - 1])
            } else {
                None
            };
            &&& knob_cycled(walked(a, key, (i - 1) as nat), key, 1).1 == Ok::<
                Option<Seq<char>>,
                RefusalView,
            >(due)
            &&& value_of(walked(a, key, i).serve, key) == due
        }),
    decreases i,
{
    let row = choose|j: int| #[trigger] is_row(j, key);
    assert(is_row(row, key) && find_knob(key) == Some(knob_row(row)));
    law_options_are_distinct(row);
    let options = options_of(key);
    let before = walked(a, key, (i - 1) as nat);
    if i > 1 {
        law_a_choice_knob_cycles(a, key, (i - 1) as nat);
        law_options_step_forward(options, i - 2);
    } else {
        law_options_step_forward(options, 0);
    }
    let next = stepped(options, value_of(before.serve, key), 1);
    if next is Some {
        lemma_words_are_words(
            match find_knob(key)->0.kind {
                Kind::Choice(o) => o@,
                _ => Seq::empty(),
            },
        );
        assert(options[i - 1].len() > 0);
    }
}

/// A step forward from an option leads to the next one, from the last one to the default,
/// and from the default to the first.
pub proof fn law_options_step_forward(options: Seq<Seq<char>>, i: int)
    requires
        0 <= i < options.len(),
        options.no_duplicates(),
    ensures
        stepped(options, None, 1) == Some(options[0]),
        stepped(options, Some(options[i]), 1) == (if i + 1 < options.len() {
            Some(options[i + 1])
        } else {
            None
        }),
{
    lemma_place(options, i);
}

proof fn lemma_place(options: Seq<Seq<char>>, i: int)
    requires
        0 <= i < options.len(),
        options.no_duplicates(),
    ensures
        place_of(options, options[i]) == i,
    decreases i,
{
    if i > 0 {
        let tail = options.drop_first();
        assert(tail.no_duplicates());
        assert(tail[i - 1] == options[i]);
        lemma_place(tail, i - 1);
    }
}

} // verus!
