//! What editing, starting and stopping owe to the configuration and to the engine.

use vstd::prelude::*;
use crate::actions::engine::{
    first_running, model_of, model_used, name_is_ours, port_of, serving, start_decided,
    start_refusal_of, stop_asked,
};
use crate::actions::serve::{
    cache_staged, flag_toggled, knob_cycled, knob_set, lost, place_of, plan_applied, plan_built,
    profile_loaded, profile_save_asked, rebuild_question, staged_line, stepped,
};
use crate::actions::{cache_rebuilt, engine_stopped, found_model, profile_deleted, ran, Clock};
use crate::cache_pools::{current_size, has_pool, pool_max, pool_min, Pool};
use crate::config::{profile_named, without_name};
use crate::ft::proc::JobView;
use crate::ft::types::CacheGeometry;
use crate::knobs::{
    after_set, args_of, clears, excluded_by, find_knob, first_error, is_on, knob_row,
    lemma_find_row, value_error, value_of, Excludes,
};
use crate::models::{Format, Model};
use crate::paths::same_place;
use crate::plan::{applied, schema_edits, Plan};
use crate::state::{AppView, ConfirmActionView, EffectView, Pending};
use crate::text::{dec, trimmed};

verus! {

// ---------------------------------------------------------------- knobs

/// A value that fits is stored as it was typed, without the spaces round it. What excludes
/// it goes, and nothing else of the configuration changes.
pub proof fn law_a_value_that_fits_is_stored(
    a: AppView,
    key: Seq<char>,
    value: Seq<char>,
    other: Seq<char>,
)
    requires
        find_knob(key) is Some,
        trimmed(value).len() > 0,
        value_error(find_knob(key)->0, trimmed(value)) is None,
        !(find_knob(key)->0.kind is Flag),
    ensures
        ({
            let (b, r) = knob_set(a, key, Some(value));
            &&& r is Ok
            &&& r->Ok_0.set
            &&& value_of(b.serve, key) == Some(trimmed(value))
            &&& other != key && excluded_by(key).contains(other) ==> value_of(b.serve, other)
                is None
            &&& other != key && !excluded_by(key).contains(other) ==> value_of(b.serve, other)
                == value_of(a.serve, other)
            &&& b == (AppView { serve: b.serve, ..a })
        }),
{
}

/// What the report of an edit lists as cleared is what was set before and is not any more.
pub proof fn law_what_an_edit_cleared_is_reported(
    a: AppView,
    key: Seq<char>,
    value: Seq<char>,
    other: Seq<char>,
)
    requires
        find_knob(key) is Some,
        trimmed(value).len() > 0,
        value_error(find_knob(key)->0, trimmed(value)) is None,
    ensures
        ({
            let (b, r) = knob_set(a, key, Some(value));
            r is Ok && (r->Ok_0.cleared.contains(other) <==> other != key && value_of(
                a.serve,
                other,
            ) is Some && value_of(b.serve, other) is None)
        }),
{
    let k = find_knob(key)->0;
    let after = after_set(a.serve, key, trimmed(value));
    lemma_lost(k.exclusive_with.keys(), key, a.serve, after, other);
    if other != key && value_of(a.serve, other) is Some && value_of(after, other) is None {
        assert(excluded_by(key).contains(other));
        assert(k.exclusive_with.keys().to_set().contains(other));
    }
}

proof fn lemma_lost(
    keys: Seq<Seq<char>>,
    key: Seq<char>,
    before: Map<Seq<char>, Seq<char>>,
    after: Map<Seq<char>, Seq<char>>,
    k: Seq<char>,
)
    ensures
        lost(keys, key, before, after).contains(k) <==> keys.contains(k) && k != key
            && before.dom().contains(k) && !after.dom().contains(k),
    decreases keys.len(),
{
    if keys.len() > 0 {
        let head = keys.drop_last();
        let last = keys.last();
        let l = lost(head, key, before, after);
        lemma_lost(head, key, before, after, k);
        assert(keys =~= head.push(last));
        assert(keys.contains(k) <==> head.contains(k) || k == last) by {
            if head.contains(k) {
                let i = choose|i: int| 0 <= i < head.len() && head[i] == k;
                assert(keys[i] == k);
            }
            if k == last {
                assert(keys[keys.len() - 1] == k);
            }
        }
        assert(l.push(last).contains(k) <==> l.contains(k) || k == last) by {
            if l.contains(k) {
                let i = choose|i: int| 0 <= i < l.len() && l[i] == k;
                assert(l.push(last)[i] == k);
            }
            assert(l.push(last)[l.len() as int] == last);
        }
    }
}

/// A value that does not fit, and a name that is no knob, change nothing.
pub proof fn law_a_value_that_does_not_fit_is_refused(
    a: AppView,
    key: Seq<char>,
    value: Seq<char>,
)
    requires
        trimmed(value).len() > 0,
    ensures
        knob_set(a, key, Some(value)).1 is Ok <==> find_knob(key) is Some && value_error(
            find_knob(key)->0,
            trimmed(value),
        ) is None,
        knob_set(a, key, Some(value)).1 is Err ==> knob_set(a, key, Some(value)).0 == a,
        find_knob(key) is None ==> knob_set(a, key, Some(value)).1->Err_0.status == 404,
        find_knob(key) is Some && knob_set(a, key, Some(value)).1 is Err ==> knob_set(
            a,
            key,
            Some(value),
        ).1->Err_0.status == 409,
{
}

/// Setting a knob to nothing, or to spaces, takes it out and leaves the others.
pub proof fn law_a_blank_value_takes_a_knob_out(
    a: AppView,
    key: Seq<char>,
    value: Option<Seq<char>>,
    other: Seq<char>,
)
    requires
        find_knob(key) is Some,
        value is Some ==> trimmed(value->0).len() == 0,
    ensures
        ({
            let (b, r) = knob_set(a, key, value);
            &&& r is Ok
            &&& !r->Ok_0.set
            &&& value_of(b.serve, key) is None
            &&& other != key ==> value_of(b.serve, other) == value_of(a.serve, other)
            &&& b == (AppView { serve: b.serve, toasts: b.toasts, ..a })
        }),
{
}

/// A toggled flag is on exactly when the answer says so: as asked for, or else the other way
/// from how it was.
pub proof fn law_a_toggled_flag_is_as_reported(a: AppView, key: Seq<char>, on: Option<bool>)
    requires
        find_knob(key) is Some,
    ensures
        flag_toggled(a, key, on).1 is Ok <==> find_knob(key)->0.kind is Flag,
        find_knob(key)->0.kind is Flag ==> ({
            let (b, r) = flag_toggled(a, key, on);
            &&& is_on(b.serve, key) == r->Ok_0
            &&& on is Some ==> r->Ok_0 == on->0
            &&& on is None ==> r->Ok_0 == !is_on(a.serve, key)
        }),
{
    reveal_strlit("true");
    reveal_strlit("false");
    assert("true"@.len() == 4 && "false"@.len() == 5);
}

// ---------------------------------------------------------------- plans

/// A plan that would change something, or that has something to explain, is held; one that
/// would not leaves what is held as it is.
pub proof fn law_a_plan_with_steps_is_held(a: AppView, plan: Plan)
    ensures
        plan@.steps.len() > 0 || plan@.unpriced is Some ==> plan_built(a, Ok(plan)).0.plan == Some(
            plan@,
        ),
        plan@.steps.len() == 0 && plan@.unpriced is None ==> plan_built(a, Ok(plan)).0.plan
            == a.plan,
        plan_built(a, Ok(plan)).1 is Ok,
        plan_built(a, Ok(plan)).0.serve == a.serve,
{
}

/// Edits set what they name, each over what stands before it, and nothing that they neither
/// name nor exclude is touched.
pub proof fn law_edits_touch_only_what_they_name(
    m: Map<Seq<char>, Seq<char>>,
    edits: Seq<(Seq<char>, Seq<char>)>,
    key: Seq<char>,
    value: Seq<char>,
    other: Seq<char>,
)
    ensures
        !clears(key, value) ==> value_of(applied(m, edits.push((key, value))).0, key) == Some(value),
        other != key && !excluded_by(key).contains(other) ==> value_of(
            applied(m, edits.push((key, value))).0,
            other,
        ) == value_of(applied(m, edits).0, other),
        applied(m, Seq::empty()).0 == m,
        applied(m, Seq::empty()).1 == 0,
        applied(m, edits.push((key, value))).1 <= applied(m, edits).1 + 1,
        !clears(key, value) && value_of(applied(m, edits).0, key) != Some(value) ==> applied(
            m,
            edits.push((key, value)),
        ).1 == applied(m, edits).1 + 1,
{
    assert(edits.push((key, value)).drop_last() =~= edits);
}

/// Applying a plan lets it go, and says how many edits changed the configuration.
pub proof fn law_an_applied_plan_is_let_go(a: AppView)
    ensures
        a.plan is None ==> plan_applied(a).1 is Err && plan_applied(a).0.serve == a.serve,
        a.plan is Some ==> ({
            let (b, r) = plan_applied(a);
            &&& b.plan is None
            &&& (b.serve, r->Ok_0) == applied(a.serve, schema_edits(a.plan->0.steps))
            &&& r is Ok
        }),
{
}

// ---------------------------------------------------------------- profiles

/// A saved profile holds the configuration, under its name without the spaces round it; the
/// other profiles hold what they held.
pub proof fn law_a_saved_profile_holds_the_configuration(
    a: AppView,
    name: Seq<char>,
    other: Seq<char>,
)
    requires
        trimmed(name).len() > 0,
    ensures
        ({
            let (b, r) = profile_save_asked(a, name);
            &&& r is Ok
            &&& r->Ok_0 == (profile_named(a.profiles.items, trimmed(name)) is None)
            &&& profile_named(b.profiles.items, trimmed(name)) is Some
            &&& profile_named(b.profiles.items, trimmed(name))->0.serve == a.serve
            &&& other != trimmed(name) ==> profile_named(b.profiles.items, other)
                == profile_named(a.profiles.items, other)
            &&& b.profiles.last_used == Some(trimmed(name))
            &&& b.effects == a.effects.push(EffectView::SaveProfiles)
            &&& b.serve == a.serve
        }),
{
    let p = crate::config::ProfileView { name: trimmed(name), notes: Seq::empty(), serve: a.serve };
    crate::config::law_a_profile_put_in_is_found(a.profiles.items, p);
    if other != trimmed(name) {
        crate::laws::config::law_other_profiles_stay(a.profiles.items, p, other);
    }
}

/// A loaded profile becomes the configuration, whole.
pub proof fn law_a_loaded_profile_is_the_configuration(a: AppView, name: Seq<char>)
    ensures
        profile_named(a.profiles.items, name) is None ==> profile_loaded(a, name).1 is Err
            && profile_loaded(a, name).0 == a,
        profile_named(a.profiles.items, name) is Some ==> profile_loaded(a, name).1 is Ok
            && profile_loaded(a, name).0.serve == profile_named(a.profiles.items, name)->0.serve
            && profile_loaded(a, name).0.profiles.items == a.profiles.items,
{
}

/// A deleted profile is gone, and the others stay.
pub proof fn law_only_the_named_profile_is_deleted(a: AppView, name: Seq<char>, i: int)
    requires
        0 <= i < a.profiles.items.len(),
    ensures
        profile_deleted(a, name).profiles.items.contains(a.profiles.items[i])
            <==> a.profiles.items[i].name != name,
        profile_deleted(a, name).serve == a.serve,
{
    reveal(profile_deleted);
    lemma_without(a.profiles.items, name, a.profiles.items[i]);
    assert(a.profiles.items.contains(a.profiles.items[i]));
}

proof fn lemma_without(
    items: Seq<crate::config::ProfileView>,
    name: Seq<char>,
    p: crate::config::ProfileView,
)
    ensures
        without_name(items, name).contains(p) <==> items.contains(p) && p.name != name,
    decreases items.len(),
{
    if items.len() > 0 {
        let head = items.drop_last();
        let last = items.last();
        let w = without_name(head, name);
        lemma_without(head, name, p);
        assert(items =~= head.push(last));
        assert(items.contains(p) <==> head.contains(p) || p == last) by {
            if head.contains(p) {
                let i = choose|i: int| 0 <= i < head.len() && head[i] == p;
                assert(items[i] == p);
            }
            if p == last {
                assert(items[items.len() - 1] == p);
            }
        }
        assert(w.push(last).contains(p) <==> w.contains(p) || p == last) by {
            if w.contains(p) {
                let i = choose|i: int| 0 <= i < w.len() && w[i] == p;
                assert(w.push(last)[i] == p);
            }
            assert(w.push(last)[w.len() as int] == last);
        }
    }
}

// ---------------------------------------------------------------- cache pools

/// A size within the bounds is staged as it is, one beyond them is staged at the bound, and
/// the size that the pool has already is no edit. The other pools keep what is staged.
pub proof fn law_a_size_is_staged_at_the_nearest_bound(
    a: AppView,
    pool: Pool,
    value: u64,
    other: Pool,
)
    requires
        a.geometry is Some,
        a.geometry->0.counted(),
        has_pool(a.geometry->0, pool),
        pool_min(a.geometry->0, pool) <= pool_max(a.geometry->0, pool),
    ensures
        ({
            let geo = a.geometry->0;
            let (b, r) = cache_staged(a, pool, Some(value));
            let lo = pool_min(geo, pool);
            let hi = pool_max(geo, pool);
            let at = if value < lo {
                lo
            } else if value > hi {
                hi
            } else {
                value as nat
            };
            &&& r is Ok
            &&& b.pending.of(pool) == r->Ok_0
            &&& at == current_size(geo, pool) ==> r->Ok_0 is None
            &&& at != current_size(geo, pool) ==> r->Ok_0 is Some && r->Ok_0->0 == at
            &&& other != pool ==> b.pending.of(other) == a.pending.of(other)
            &&& b == (AppView { pending: b.pending, ..a })
        }),
{
    crate::actions::serve::law_a_staged_size_is_an_edit_within_bounds(
        a.geometry->0,
        pool,
        Some(value),
    );
}

/// Without a geometry, and for a pool that the model does not have, nothing is staged.
pub proof fn law_only_a_shown_pool_is_staged(a: AppView, pool: Pool, value: Option<u64>)
    ensures
        cache_staged(a, pool, value).1 is Ok <==> a.geometry is Some && has_pool(
            a.geometry->0,
            pool,
        ),
        cache_staged(a, pool, value).1 is Err ==> cache_staged(a, pool, value).0.pending
            == a.pending,
        cache_staged(a, pool, None).1 is Ok ==> cache_staged(a, pool, None).0.pending.of(pool)
            is None,
{
}

/// A rebuild is asked for with the staged sizes, each for its own pool, and for an idle
/// engine only.
pub proof fn law_a_rebuild_asks_for_what_is_staged(a: AppView, pool: Pool)
    ensures
        a.pending == Pending::none() ==> cache_rebuilt(a).0 == a,
        a.pending != Pending::none() ==> ({
            let b = cache_rebuilt(a).0;
            &&& b.applying
            &&& b.effects.len() == a.effects.len() + 1
            &&& b.effects.last() is RebuildCache
            &&& b.effects.last()->RebuildCache_0.sizes.of(pool) == a.pending.of(pool)
            &&& b.effects.last()->RebuildCache_0.mode == "if_idle"@
            &&& b.effects.last()->RebuildCache_0.timeout == 300
        }),
{
    reveal(cache_rebuilt);
}

/// Every staged pool has its line in the question before a rebuild.
pub proof fn law_a_rebuild_question_names_every_staged_pool(
    geo: CacheGeometry,
    pending: Pending,
    active: u64,
    pool: Pool,
)
    requires
        has_pool(geo, pool),
        pending.of(pool) is Some,
    ensures
        staged_line(geo, pending, pool).len() == 1,
        rebuild_question(geo, pending, active).body.contains(
            staged_line(geo, pending, pool)[0],
        ),
        rebuild_question(geo, pending, active).action == ConfirmActionView::ApplyCacheRebuild,
{
    let line = staged_line(geo, pending, pool)[0];
    let m = staged_line(geo, pending, Pool::Moe);
    let k = staged_line(geo, pending, Pool::Kv);
    let s = staged_line(geo, pending, Pool::Mamba);
    let w = staged_line(geo, pending, Pool::Swa);
    let body = rebuild_question(geo, pending, active).body;
    let at: nat = match pool {
        Pool::Moe => 2,
        Pool::Kv => 2 + m.len(),
        Pool::Mamba => 2 + m.len() + k.len(),
        Pool::Swa => 2 + m.len() + k.len() + s.len(),
    };
    assert(body[at as int] == line);
}

// ---------------------------------------------------------------- starting and stopping

/// An engine is started exactly when none is up here or elsewhere, no job runs, the CLI is
/// there and the configuration holds no error; it is started with the arguments of the
/// configuration behind `serve`.
pub proof fn law_when_an_engine_is_started(a: AppView)
    ensures
        start_decided(a).1 is Ok <==> {
            &&& !a.engine.state.live()
            &&& a.engine.foreign is None
            &&& first_running(a.jobs) is None
            &&& a.known.ft is Some
            &&& first_error(a.serve) is None
        },
        start_decided(a).1 is Err ==> start_decided(a).0.effects == a.effects,
        start_decided(a).1 is Ok ==> ({
            let b = start_decided(a).0;
            let e = b.effects.last();
            &&& b.effects.len() == a.effects.len() + 1
            &&& e is StartEngine
            &&& e->args == args_of(a.serve)
            &&& e->launch.program == a.known.ft->0@.program
            &&& e->launch.argv == a.known.ft->0@.prefix.push("serve"@) + args_of(a.serve)
            &&& e->StartEngine_model == model_of(a.serve)
            &&& e->port == port_of(a.serve, a.known.config.server.port)
        }),
{
    reveal(start_decided);
    reveal(start_refusal_of);
    reveal(crate::actions::engine::serve_launch);
}

/// A job counts as running when it is; the first such job is the one that is named.
pub proof fn law_a_running_job_is_found(jobs: Seq<JobView>)
    ensures
        first_running(jobs) is None <==> (forall|i: int|
            0 <= i < jobs.len() ==> !((#[trigger] jobs[i]).status is Running)),
        first_running(jobs) is Some ==> first_running(jobs)->0.status is Running,
    decreases jobs.len(),
{
    if jobs.len() > 0 {
        let tail = jobs.drop_first();
        law_a_running_job_is_found(tail);
        if !(jobs[0].status is Running) {
            assert forall|i: int| 0 <= i < jobs.len() && first_running(tail) is None implies !((
            #[trigger] jobs[i]).status is Running) by {
                if i > 0 {
                    assert(tail[i - 1] == jobs[i]);
                }
            }
            if forall|i: int| 0 <= i < jobs.len() ==> !((#[trigger] jobs[i]).status is Running) {
                assert forall|i: int| 0 <= i < tail.len() implies !((
                #[trigger] tail[i]).status is Running) by {
                    assert(jobs[i + 1] == tail[i]);
                }
            }
        }
    }
}

/// The engine is reached at the port that the configuration names, where it names one.
pub proof fn law_the_configured_port_is_used(
    serve: Map<Seq<char>, Seq<char>>,
    fallback: u16,
    port: u16,
)
    ensures
        value_of(serve, "port"@) is None ==> port_of(serve, fallback) == fallback,
        value_of(serve, "port"@) == Some(dec(port as nat)) ==> port_of(serve, fallback) == port,
        value_of(serve, "model"@) is Some ==> model_of(serve) == value_of(serve, "model"@)->0,
{
    crate::text::law_a_numeral_reads_back(port as nat);
}

/// A stop is asked of a live engine only, and says whether it is forced.
pub proof fn law_a_stop_is_asked_of_a_live_engine(a: AppView, force: bool, clock: Clock)
    ensures
        stop_asked(a, force, clock).1 is Ok <==> a.engine.state.live(),
        !a.engine.state.live() ==> stop_asked(a, force, clock).0.effects == a.effects && stop_asked(
            a,
            force,
            clock,
        ).0.engine == a.engine,
        a.engine.state.live() && a.known.config.ui.confirm_destructive ==> stop_asked(
            a,
            force,
            clock,
        ).0.confirm is Some && stop_asked(a, force, clock).0.confirm->0.action
            == (ConfirmActionView::StopEngine { force }),
        a.engine.state.live() && !a.known.config.ui.confirm_destructive ==> stop_asked(
            a,
            force,
            clock,
        ).0 == engine_stopped(a, force, clock.ns),
{
    reveal(ran);
    reveal(engine_stopped);
}

// ---------------------------------------------------------------- choosing a model

/// A model is found by its place: the first in the library that stands there.
pub proof fn law_a_model_is_found_by_its_place(models: Seq<Model>, path: Seq<char>)
    ensures
        found_model(models, path) is None <==> (forall|i: int|
            0 <= i < models.len() ==> !same_place((#[trigger] models[i]).path@, path)),
        found_model(models, path) is Some ==> models.contains(found_model(models, path)->0)
            && same_place(found_model(models, path)->0.path@, path),
    decreases models.len(),
{
    if models.len() > 0 {
        let tail = models.drop_first();
        law_a_model_is_found_by_its_place(tail, path);
        if same_place(models[0].path@, path) {
            assert(models.contains(models[0]));
        } else {
            if found_model(tail, path) is Some {
                let m = found_model(tail, path)->0;
                let i = choose|i: int| 0 <= i < tail.len() && tail[i] == m;
                assert(models[i + 1] == m);
            } else {
                assert forall|i: int| 0 <= i < models.len() implies !same_place(
                    (#[trigger] models[i]).path@,
                    path,
                ) by {
                    if i > 0 {
                        assert(tail[i - 1] == models[i]);
                    }
                }
            }
        }
    }
}

proof fn lemma_plain_text_keys()
    ensures
        find_knob("model"@) is Some,
        !(find_knob("model"@)->0.kind is Flag),
        find_knob("served_model_name"@) is Some,
        !(find_knob("served_model_name"@)->0.kind is Flag),
        !excluded_by("model"@).contains("served_model_name"@),
        !excluded_by("served_model_name"@).contains("model"@),
        "model"@ != "served_model_name"@,
{
    reveal_strlit("model");
    reveal_strlit("served_model_name");
    assert("model"@.len() == 5 && "served_model_name"@.len() == 17);
    lemma_find_row(0);
    lemma_find_row(1);
    assert(knob_row(0).key@ == "model"@);
    assert(knob_row(1).key@ == "served_model_name"@);
    assert(knob_row(0).exclusive_with == Excludes::Nothing);
    assert(knob_row(1).exclusive_with == Excludes::Nothing);
}

/// A chosen model is what the configuration serves: its finished build where it has one, or
/// else itself; under its own name where no other name was typed.
pub proof fn law_a_chosen_model_is_served(a: AppView, m: Model)
    requires
        m.path@.len() > 0,
        m.converted_to is Some ==> m.converted_to->0@.len() > 0,
        m@.served_name().len() > 0,
    ensures
        m.converted_to is Some ==> value_of(serving(a, m), "model"@) == Some(m.converted_to->0@),
        m.converted_to is None ==> value_of(serving(a, m), "model"@) == Some(m.path@),
        name_is_ours(a) ==> value_of(serving(a, m), "served_model_name"@) == Some(
            m@.served_name(),
        ),
        !name_is_ours(a) ==> value_of(serving(a, m), "served_model_name"@) == value_of(
            a.serve,
            "served_model_name"@,
        ),
{
    lemma_plain_text_keys();
}

/// An incomplete conversion is served by nothing; any other model of the library is taken.
pub proof fn law_an_incomplete_conversion_is_not_served(
    a: AppView,
    path: Seq<char>,
    and_serve: bool,
)
    ensures
        !and_serve ==> (model_used(a, path, and_serve, None, false).1 is Ok <==> found_model(
            a.known.models@,
            path,
        ) is Some && found_model(a.known.models@, path)->0.format != Format::PartialFtw),
        model_used(a, path, and_serve, None, false).1 is Err && !and_serve ==> model_used(
            a,
            path,
            and_serve,
            None,
            false,
        ).0.serve == a.serve,
        !and_serve && found_model(a.known.models@, path) is Some && found_model(
            a.known.models@,
            path,
        )->0.format != Format::PartialFtw ==> model_used(a, path, and_serve, None, false).0.serve
            == serving(a, found_model(a.known.models@, path)->0),
{
}

/// From no value a choice is stepped into at the end that it is stepped from, and past either
/// end it is left again.
pub proof fn law_a_choice_is_stepped_through(options: Seq<Seq<char>>, v: Seq<char>, i: int)
    requires
        options.len() > 0,
    ensures
        stepped(options, None, 1) == Some(options[0]),
        stepped(options, None, -1) == Some(options.last()),
        place_of(options, v) <= options.len(),
        place_of(options, v) < options.len() ==> options[place_of(options, v) as int] == v,
        0 <= i < options.len() && place_of(options, v) == i && i + 1 < options.len() ==> stepped(
            options,
            Some(v),
            1,
        ) == Some(options[i + 1]),
        0 <= i < options.len() && place_of(options, v) == i && i + 1 == options.len() ==> stepped(
            options,
            Some(v),
            1,
        ) is None,
        0 < i < options.len() && place_of(options, v) == i ==> stepped(options, Some(v), -1)
            == Some(options[i - 1]),
        place_of(options, v) == 0 ==> stepped(options, Some(v), -1) is None,
        options.contains(v) <==> place_of(options, v) < options.len(),
    decreases options.len(),
{
    if options[0] != v && options.len() > 1 {
        let tail = options.drop_first();
        law_a_choice_is_stepped_through(tail, v, i - 1);
        if options.contains(v) {
            let k = choose|k: int| 0 <= k < options.len() && options[k] == v;
            assert(tail[k - 1] == v);
        }
        if tail.contains(v) {
            let k = choose|k: int| 0 <= k < tail.len() && tail[k] == v;
            assert(options[k + 1] == v);
        }
    } else if options[0] != v {
        assert(options.drop_first() =~= Seq::<Seq<char>>::empty());
        assert(place_of(options.drop_first(), v) == 0);
        if options.contains(v) {
            let k = choose|k: int| 0 <= k < options.len() && options[k] == v;
            assert(options[0] == v);
        }
    } else {
        assert(options.contains(options[0]));
    }
}

/// Cycling a flag turns it the other way, and says how it stands.
pub proof fn law_a_cycled_flag_turns(a: AppView, key: Seq<char>, delta: int)
    requires
        find_knob(key) is Some,
        find_knob(key)->0.kind is Flag,
    ensures
        ({
            let (b, r) = knob_cycled(a, key, delta);
            &&& r is Ok
            &&& is_on(b.serve, key) == !is_on(a.serve, key)
            &&& r->Ok_0 is Some <==> is_on(b.serve, key)
        }),
{
    reveal_strlit("true");
    reveal_strlit("false");
    assert("true"@.len() == 4 && "false"@.len() == 5);
}

} // verus!
