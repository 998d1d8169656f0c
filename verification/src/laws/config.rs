//! What the configuration leads to: the places, the address, the token, the profiles.

use vstd::prelude::*;
use crate::config::{
    all_expanded, among, by_name, lemma_first_is_slot, lemma_ordered_by_name, lemma_slot, or_else,
    profile_named, reachable, said_or, slot_of, state_root_of, token_file_of, token_of, upserted,
    with_places, with_profile, FreetokenCfg, HfEnv, HubCfg, LibraryCfg, ProfileView, ServerCfg,
    TemplatesCfg, UiCfg, WebCfg,
};
use crate::order::{lemma_first_ordered, lemma_ordered, ordered};
use crate::paths::{expanded, joined_path, same_place};
use crate::text::{opt_text, texts, trimmed};

verus! {

/// What a machine without a configuration starts with.
pub proof fn law_the_defaults(
    ft: FreetokenCfg,
    server: ServerCfg,
    hub: HubCfg,
    ui: UiCfg,
    web: WebCfg,
    lib: LibraryCfg,
    templates: TemplatesCfg,
    home: Seq<char>,
)
    ensures
        server.is_default() ==> server.host@ == "0.0.0.0"@ && server.port == 1919 && server.poll_ms
            == 1000 && server.timeout_ms == 4000,
        hub.is_default() ==> hub.endpoint@ == "https://huggingface.co"@ && hub.token is None
            && hub.cli is None && hub.concurrency == 4 && texts(hub.ignore@) == seq![
            "*.bin"@,
            "*.pth"@,
            "*.msgpack"@,
            "*.h5"@,
            "*.onnx"@,
        ],
        ui.is_default() ==> ui.theme@ == "auto"@ && ui.confirm_destructive && ui.tick_ms == 200
            && ui.log_capacity == 5000,
        templates.is_default() ==> templates.preflight && texts(templates.sources@) == seq![
            "peculiar-ragdoll/Qwen-Sharp-Chat-Templates"@,
        ],
        web.is_default() ==> web.listen@ == "0.0.0.0:7979"@ && web.token is None,
        ft.is_default() ==> ft.binary is None && ft.venv is None && ft.env@.len() == 0
            && ft.checkout is None && ft.checkout_poll_min == 30,
        lib.is_default(Some(home)) ==> texts(lib.roots@) == seq![joined_path(home, "models"@)]
            && lib.download_dir@ == joined_path(home, "models"@) && lib.hub_cache is None
            && lib.ftw_dir is None,
{
}

/// An engine that listens everywhere is reached over the loopback; any other where it
/// listens.
pub proof fn law_an_engine_is_reached_where_it_listens(host: Seq<char>)
    ensures
        trimmed(host) == "0.0.0.0"@ || trimmed(host) == "::"@ || trimmed(host) == "*"@
            ==> reachable(host) == "127.0.0.1"@,
        trimmed(host) != "0.0.0.0"@ && trimmed(host) != "::"@ && trimmed(host) != "*"@
            ==> reachable(host) == trimmed(host),
{
}

/// The hub cache is where it is configured, or else where the environment puts it, from the
/// most particular variable to the home directory; and so is the file of the token.
pub proof fn law_the_cache_is_where_it_is_said_to_be(lib: LibraryCfg, env: HfEnv)
    ensures
        lib.hub_cache is Some ==> lib.cache(env) == expanded(lib.hub_cache->0@, opt_text(env.home)),
        lib.hub_cache is None && env.hub_cache is Some ==> lib.cache(env) == env.hub_cache->0@,
        lib.hub_cache is None && env.hub_cache is None && env.hf_home is Some ==> lib.cache(env)
            == joined_path(env.hf_home->0@, "hub"@),
        lib.hub_cache is None && env.hub_cache is None && env.hf_home is None && env.home is Some
            ==> lib.cache(env) == joined_path(env.home->0@, ".cache/huggingface/hub"@),
        env.token_path is Some ==> token_file_of(env) == env.token_path->0@,
        env.token_path is None && env.hf_home is Some ==> token_file_of(env) == joined_path(
            env.hf_home->0@,
            "token"@,
        ),
        env.token_path is None && env.hf_home is None && env.home is Some ==> token_file_of(env)
            == joined_path(env.home->0@, ".cache/huggingface/token"@),
{
}

/// Builds go where they are configured to, or else where downloads go.
pub proof fn law_builds_go_where_they_are_said_to(lib: LibraryCfg, home: Option<Seq<char>>)
    ensures
        lib.ftw_dir is Some ==> lib.builds(home) == expanded(lib.ftw_dir->0@, home),
        lib.ftw_dir is None ==> lib.builds(home) == expanded(lib.download_dir@, home),
{
}

/// Every configured root is scanned, in its place.
pub proof fn law_every_root_is_scanned(lib: LibraryCfg, env: HfEnv, i: int)
    requires
        0 <= i < lib.roots@.len(),
    ensures
        lib.scanned(env).len() >= lib.roots@.len(),
        lib.scanned(env).len() <= lib.roots@.len() + 2,
        lib.scanned(env)[i] == expanded(lib.roots@[i]@, opt_text(env.home)),
{
    let listed = all_expanded(texts(lib.roots@), opt_text(env.home));
    assert(listed[i] == expanded(texts(lib.roots@)[i], opt_text(env.home)));
}

/// A root that the command line adds is there, and none that was there goes.
pub proof fn law_added_roots_are_there(paths: Seq<Seq<char>>, more: Seq<Seq<char>>, p: Seq<char>)
    ensures
        among(with_places(paths, more.push(p)), p),
        with_places(paths, Seq::empty()) == paths,
        among(with_places(paths, more), p) ==> with_places(paths, more.push(p)) == with_places(
            paths,
            more,
        ),
        !among(with_places(paths, more), p) ==> with_places(paths, more.push(p)) == with_places(
            paths,
            more,
        ).push(p),
{
    assert(more.push(p).drop_last() =~= more);
    let r = with_places(paths, more);
    if !among(r, p) {
        assert(same_place(r.push(p)[r.len() as int], p));
    }
}

/// What the command line says holds over the file.
pub proof fn law_the_command_line_holds_over_the_file(said: Option<String>, filed: Seq<char>)
    ensures
        said is Some ==> said_or(said, filed) == said->0@,
        said is None ==> said_or(said, filed) == filed,
{
}

/// The token is the first of its sources that holds anything: `HF_TOKEN`, the older
/// variable, the configuration, and the file of the CLI. It is trimmed, and a blank one hides
/// no other.
pub proof fn law_the_first_token_that_holds_anything_counts(
    first: Option<Seq<char>>,
    second: Option<Seq<char>>,
    config: Option<Seq<char>>,
    file: Option<Seq<char>>,
)
    ensures
        ({
            let t = token_of(first, second, config, file);
            let holds = |s: Option<Seq<char>>| s is Some && trimmed(s->0).len() > 0;
            &&& holds(first) ==> t is Some && (t->0).0 == trimmed(first->0)
            &&& !holds(first) && holds(second) ==> t is Some && (t->0).0 == trimmed(second->0)
            &&& !holds(first) && !holds(second) && holds(config) ==> t is Some && (t->0).0 == trimmed(
                config->0,
            )
            &&& !holds(first) && !holds(second) && !holds(config) && holds(file) ==> t is Some && (t->0).0
                == trimmed(file->0)
            &&& !holds(first) && !holds(second) && !holds(config) && !holds(file) ==> t is None
        }),
{
}

// ---------------------------------------------------------------- profiles

/// Putting a profile in touches no other name.
pub proof fn law_other_profiles_stay(items: Seq<ProfileView>, p: ProfileView, other: Seq<char>)
    requires
        other != p.name,
    ensures
        profile_named(upserted(items, p), other) == profile_named(items, other),
        upserted(items, p).len() == (if profile_named(items, p.name) is Some {
            items.len()
        } else {
            items.len() + 1
        }),
{
    let mid = with_profile(items, p);
    let after = upserted(items, p);
    let at = slot_of(items, p.name) as int;
    lemma_first_is_slot(items, p.name);
    lemma_first_is_slot(items, other);
    let i = slot_of(items, other) as int;
    assert forall|j: int| 0 <= j < items.len() implies (#[trigger] mid[j]).name == items[j].name by {
        if j == at {
            assert(items[at].name == p.name);
        }
    }
    if i < items.len() {
        lemma_slot(mid, other, i);
        assert(mid[i] == items[i]);
    } else if at < items.len() {
        lemma_slot(mid, other, i);
    } else {
        assert(mid[items.len() as int] == p);
        lemma_slot(mid, other, i + 1);
    }
    lemma_first_is_slot(mid, other);
    lemma_first_ordered(by_name(mid), other);
    lemma_ordered(by_name(mid));
    lemma_ordered_by_name(mid);
    lemma_first_is_slot(after, other);
    assert(by_name(after) =~= ordered(by_name(mid)));
}

/// State stands below the state directory, or else below the data directory, or else here;
/// and the newer name of a setting goes before the older.
pub proof fn law_the_newer_name_goes_first(a: Seq<char>, b: Option<Seq<char>>)
    ensures
        or_else(Some(a), b) == Some(a),
        or_else(None, b) == b,
        state_root_of(Some(a), b) == a,
        b is Some ==> state_root_of(None, b) == b->0,
        state_root_of(None, None) == "."@,
{
}

} // verus!
