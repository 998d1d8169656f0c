//! Persisted configuration, saved serve profiles, and the XDG paths paddock uses.
//!
//! Everything lives under the standard XDG roots so the tool leaves no surprises on a
//! server: config in `~/.config/paddock`, mutable state and logs in `~/.local/state/paddock`.
//! What the environment holds is handed in: a variable that is not set is `None`.

use vstd::prelude::*;
use crate::knobs::ServeConfig;
use crate::order::{
    first_under, in_order, keyed, lemma_first_ordered, lemma_ordered, lemma_ordered_mapped, mapped,
    ordered, sorted_values, values,
};
use crate::paths::{expand_tilde, expanded, join, joined_path, same_path, same_place};
use crate::text::{
    cat4, cat7, dec, decimal, lemma_texts_push, opt_str, opt_text, same, texts, trim, trimmed,
};

verus! {

/// The name of the directories of installs that predate the current one.
pub const LEGACY_NAME: &'static str = "ft-man";

pub open spec fn or_else(a: Option<Seq<char>>, b: Option<Seq<char>>) -> Option<Seq<char>> {
    if a is Some {
        a
    } else {
        b
    }
}

pub open spec fn or_dot(a: Option<Seq<char>>) -> Seq<char> {
    match a {
        Some(s) => s,
        None => "."@,
    }
}

fn pick<'a>(a: Option<&'a str>, b: Option<&'a str>) -> (r: Option<&'a str>)
    ensures
        opt_str(r) == or_else(opt_str(a), opt_str(b)),
{
    match a {
        Some(s) => Some(s),
        None => b,
    }
}

fn dot_if_none(a: Option<&str>) -> (r: &str)
    ensures
        r@ == or_dot(opt_str(a)),
{
    match a {
        Some(s) => s,
        None => ".",
    }
}

/// Config root. `PADDOCK_CONFIG_DIR` overrides it, which is how one machine runs several
/// independent paddock setups (say, one per GPU) without them sharing profiles.
///
/// `FT_MAN_CONFIG_DIR` is still honored when the new name is unset: that variable is the
/// kind of thing that ends up in a systemd unit or a shell profile, and an upgrade that
/// silently ignored it would quietly start a second, empty configuration.
pub fn config_dir(own: Option<&str>, legacy: Option<&str>, xdg: Option<&str>) -> (r: String)
    ensures
        r@ == (match or_else(opt_str(own), opt_str(legacy)) {
            Some(dir) => dir,
            None => joined_path(or_dot(opt_str(xdg)), "paddock"@),
        }),
{
    match pick(own, legacy) {
        Some(dir) => dir.to_owned(),
        None => join(dot_if_none(xdg), "paddock"),
    }
}

/// The directory that holds every program's state.
pub open spec fn state_root_of(state: Option<Seq<char>>, data: Option<Seq<char>>) -> Seq<char> {
    or_dot(or_else(state, data))
}

/// State root, holding the serve state file and every captured log. `PADDOCK_STATE_DIR`
/// overrides it, for the same reason; else it stands below the XDG state directory, or the
/// local data directory where there is none.
pub fn state_dir(own: Option<&str>, legacy: Option<&str>, state: Option<&str>, data: Option<&str>)
    -> (r: String)
    ensures
        r@ == (match or_else(opt_str(own), opt_str(legacy)) {
            Some(dir) => dir,
            None => joined_path(state_root_of(opt_str(state), opt_str(data)), "paddock"@),
        }),
{
    match pick(own, legacy) {
        Some(dir) => dir.to_owned(),
        None => join(dot_if_none(pick(state, data)), "paddock"),
    }
}

pub fn log_dir(state_dir: &str) -> (r: String)
    ensures
        r@ == joined_path(state_dir@, "logs"@),
{
    join(state_dir, "logs")
}

pub fn config_path(config_dir: &str) -> (r: String)
    ensures
        r@ == joined_path(config_dir@, "config.toml"@),
{
    join(config_dir, "config.toml")
}

pub fn profiles_path(config_dir: &str) -> (r: String)
    ensures
        r@ == joined_path(config_dir@, "profiles.toml"@),
{
    join(config_dir, "profiles.toml")
}

pub fn serve_state_path(state_dir: &str) -> (r: String)
    ensures
        r@ == joined_path(state_dir@, "serve.json"@),
{
    join(state_dir, "serve.json")
}

/// The directory to move, and where to, when one of the roots has no override. An explicit
/// override is a deliberate choice about where things live, and moving something into it
/// would be a surprise.
pub fn legacy_move(own: Option<&str>, legacy: Option<&str>, base: Option<&str>) -> (r: Option<
    (String, String),
>)
    ensures
        (match r {
            Some(p) => Some((p.0@, p.1@)),
            None => None,
        }) == (if own is None && legacy is None && base is Some {
            Some(
                (
                    joined_path(base->0@, LEGACY_NAME@),
                    joined_path(base->0@, "paddock"@),
                ),
            )
        } else {
            None
        }),
{
    match (own, legacy, base) {
        (None, None, Some(base)) => Some((join(base, LEGACY_NAME), join(base, "paddock"))),
        _ => None,
    }
}

/// Whether an older install is moved into place.
///
/// Renaming rather than copying, so there is exactly one of each afterwards and no
/// question about which is authoritative. Skipped entirely when the new directory already
/// exists: that means either this already ran, or the user has both, and in neither case
/// should the old one win.
pub fn migrates(to_exists: bool, from_is_dir: bool) -> (r: bool)
    ensures
        r == (!to_exists && from_is_dir),
{
    !to_exists && from_is_dir
}

/// What is said of a move, by how it went.
pub fn migration_report(from: &str, to: &str, failure: Option<&str>) -> (r: String)
    ensures
        r@ == (match failure {
            None => "paddock: moved "@ + from@ + " to "@ + to@,
            Some(e) => "paddock: could not move "@ + from@ + " to "@ + to@ + " ("@ + e@
                + "); starting with fresh defaults. The old directory is untouched."@,
        }),
{
    match failure {
        None => cat4("paddock: moved ", from, " to ", to),
        Some(e) => cat7(
            "paddock: could not move ",
            from,
            " to ",
            to,
            " (",
            e,
            "); starting with fresh defaults. The old directory is untouched.",
        ),
    }
}

// ---------------------------------------------------------------- config

#[derive(Debug, Clone)]
pub struct Config {
    pub freetoken: FreetokenCfg,
    pub server: ServerCfg,
    pub library: LibraryCfg,
    pub hub: HubCfg,
    pub templates: TemplatesCfg,
    pub convert: ConvertCfg,
    pub ui: UiCfg,
    pub web: WebCfg,
}

impl Config {
    /// The configuration of a machine that has none.
    pub fn defaults(home: Option<&str>) -> (r: Self)
        ensures
            r.freetoken.is_default(),
            r.server.is_default(),
            r.library.is_default(opt_str(home)),
            r.hub.is_default(),
            r.templates.is_default(),
            r.convert.preflight,
            r.ui.is_default(),
            r.web.is_default(),
    {
        Config {
            freetoken: FreetokenCfg::default(),
            server: ServerCfg::default(),
            library: LibraryCfg::defaults(home),
            hub: HubCfg::default(),
            templates: TemplatesCfg::default(),
            convert: ConvertCfg::default(),
            ui: UiCfg::default(),
            web: WebCfg::default(),
        }
    }
}

/// How to invoke FreeToken. `ft` is normally on PATH inside the venv it was installed
/// into; pointing `venv` at that venv is enough and is the friendliest option, since it
/// also makes `python -m freetoken.cli` available as a fallback.
#[derive(Debug, Clone)]
pub struct FreetokenCfg {
    /// Explicit path to the `ft` executable. Overrides `venv` and PATH lookup.
    pub binary: Option<String>,
    /// A virtualenv root; `<venv>/bin/ft` and `<venv>/bin/python` are used from it.
    pub venv: Option<String>,
    /// Extra environment variables applied to every spawned FreeToken process.
    pub env: Vec<(String, String)>,
    /// The FreeToken git checkout this machine builds from, when it is not the directory
    /// `venv` or `binary` sits inside. Normally unset: a `.venv` made in the clone is
    /// found without help.
    pub checkout: Option<String>,
    /// Minutes between `git fetch` checks of that checkout. This is the one poll that
    /// leaves the machine, so it is deliberately slow. Zero checks once at startup and
    /// never again.
    pub checkout_poll_min: u64,
}

impl FreetokenCfg {
    pub open spec fn is_default(self) -> bool {
        self.binary is None && self.venv is None && self.env@.len() == 0 && self.checkout is None
            && self.checkout_poll_min == 30
    }

    /// Seconds between checks of the checkout; zero checks once and never again.
    pub fn checkout_period(&self) -> (r: u64)
        ensures
            r == crate::util::saturated(self.checkout_poll_min * 60),
    {
        crate::util::sat_mul(self.checkout_poll_min, 60)
    }
}

impl Default for FreetokenCfg {
    fn default() -> (r: Self)
        ensures
            r.is_default(),
    {
        FreetokenCfg {
            binary: None,
            venv: None,
            env: Vec::new(),
            checkout: None,
            checkout_poll_min: 30,
        }
    }
}

#[derive(Debug, Clone)]
pub struct ServerCfg {
    /// Bind address paddock defaults `ft serve --host` to. Also what paddock polls for
    /// engine telemetry, by way of [`poll_host`]: a wildcard bind is not a destination.
    pub host: String,
    /// Port paddock polls. Also the default `ft serve --port`.
    pub port: u16,
    /// Poll period for /health, /v1/stats and /v1/cache/status, in milliseconds.
    pub poll_ms: u64,
    /// HTTP timeout for those polls, in milliseconds.
    pub timeout_ms: u64,
}

impl Default for ServerCfg {
    fn default() -> (r: Self)
        ensures
            r.is_default(),
    {
        ServerCfg { host: "0.0.0.0".to_owned(), port: 1919, poll_ms: 1000, timeout_ms: 4000 }
    }
}

/// The least time between two polls, in milliseconds.
pub const MIN_POLL_MS: u64 = 200;

impl ServerCfg {
    pub open spec fn is_default(self) -> bool {
        self.host@ == "0.0.0.0"@ && self.port == 1919 && self.poll_ms == 1000 && self.timeout_ms
            == 4000
    }

    pub fn base_url(&self) -> (r: String)
        ensures
            r@ == "http://"@ + reachable(self.host@) + ":"@ + dec(self.port as nat),
    {
        cat4("http://", poll_host(self.host.as_str()).as_str(), ":", decimal(self.port as u64).as_str())
    }

    /// Milliseconds between two polls of the control plane.
    pub fn poll_period(&self) -> (r: u64)
        ensures
            r == crate::util::max(self.poll_ms as nat, MIN_POLL_MS as nat),
    {
        crate::util::larger(self.poll_ms, MIN_POLL_MS)
    }
}

/// The address that reaches an engine bound to `host`.
pub open spec fn reachable(host: Seq<char>) -> Seq<char> {
    let h = trimmed(host);
    if h == "0.0.0.0"@ || h == "::"@ || h == "*"@ {
        "127.0.0.1"@
    } else {
        h
    }
}

/// The address to talk to an engine bound to `host`. A bind address of 0.0.0.0 means
/// "every interface", which is not itself a usable destination, so reach such an engine
/// over the loopback it is also listening on.
pub fn poll_host(host: &str) -> (r: String)
    ensures
        r@ == reachable(host@),
{
    let h = trim(host);
    if same(h.as_str(), "0.0.0.0") || same(h.as_str(), "::") || same(h.as_str(), "*") {
        "127.0.0.1".to_owned()
    } else {
        h
    }
}

/// No wildcard is ever a destination.
pub proof fn law_a_wildcard_is_not_a_destination(host: Seq<char>)
    ensures
        reachable(host) != "0.0.0.0"@,
        reachable(host) != "::"@,
        reachable(host) != "*"@,
{
    reveal_strlit("127.0.0.1");
    reveal_strlit("0.0.0.0");
    reveal_strlit("::");
    reveal_strlit("*");
    assert("127.0.0.1"@[0] == '1');
    assert("0.0.0.0"@[0] == '0');
    assert("127.0.0.1"@.len() == 9);
    assert("::"@.len() == 2);
    assert("*"@.len() == 1);
}

#[derive(Debug, Clone)]
pub struct LibraryCfg {
    /// Directories scanned for checkpoints. Each is searched one level deep, plus the
    /// two-level `org/model` layout `hf download --local-dir` and mirrors produce. An
    /// entry named `models--org--name` is recognized as a Hugging Face hub cache entry
    /// and resolved through its ref, so a cache directory can be listed here directly.
    pub roots: Vec<String>,
    /// Where a plain (non-cache) download lands. Downloads from the Hub tab go to the
    /// hub cache instead; this remains the home for checkpoints placed by hand.
    pub download_dir: String,
    /// The Hugging Face hub cache to read and download into.
    ///
    /// Set this when the cache is not where the environment says it is, which is most of
    /// the time on a server. `HF_HOME` is exported by a shell profile, so it reaches an
    /// interactive login and nothing else: not a session opened before the profile was
    /// written, not a systemd unit, not a terminal an editor spawned. paddock would then
    /// silently read an empty cache in the home directory and report a library of nothing,
    /// and price a download against the wrong filesystem's free space.
    pub hub_cache: Option<String>,
    /// Where FTW builds are written. Defaults to [`Self::download_dir`].
    ///
    /// Never beside the source checkpoint: a hub-cache checkpoint's sibling is inside
    /// `snapshots/`, and that tree belongs to `huggingface_hub`: a directory it did not
    /// write is invisible to `hf cache scan` and at risk from `hf cache delete`.
    pub ftw_dir: Option<String>,
}

/// What the environment says of Hugging Face, and where home is.
#[derive(Debug, Clone)]
pub struct HfEnv {
    /// `HF_HUB_CACHE`
    pub hub_cache: Option<String>,
    /// `HF_HOME`
    pub hf_home: Option<String>,
    /// `HF_TOKEN_PATH`
    pub token_path: Option<String>,
    /// The home directory.
    pub home: Option<String>,
}

pub open spec fn cache_of(env: HfEnv) -> Seq<char> {
    match (env.hub_cache, env.hf_home) {
        (Some(dir), _) => dir@,
        (None, Some(home)) => joined_path(home@, "hub"@),
        (None, None) => joined_path(or_dot(opt_text(env.home)), ".cache/huggingface/hub"@),
    }
}

pub open spec fn token_file_of(env: HfEnv) -> Seq<char> {
    match (env.token_path, env.hf_home) {
        (Some(path), _) => path@,
        (None, Some(home)) => joined_path(home@, "token"@),
        (None, None) => joined_path(or_dot(opt_text(env.home)), ".cache/huggingface/token"@),
    }
}

pub fn home_of(env: &HfEnv) -> (r: Option<&str>)
    ensures
        opt_str(r) == opt_text(env.home),
{
    match &env.home {
        Some(h) => Some(h.as_str()),
        None => None,
    }
}

/// Where `huggingface_hub` keeps the token `hf auth login` writes.
///
/// `HF_TOKEN_PATH`, then `$HF_HOME/token`, then the default `HF_HOME`. Hardcoding
/// `~/.cache/huggingface/token` is wrong the moment `HF_HOME` moves, which it does on any
/// machine pointing its cache at shared storage, and the failure is silent in the worst
/// way: the token is plainly on disk, paddock reports none, and gated downloads 401 for no
/// visible reason.
pub fn hf_token_path(env: &HfEnv) -> (r: String)
    ensures
        r@ == token_file_of(*env),
{
    if let Some(path) = &env.token_path {
        return path.clone();
    }
    if let Some(home) = &env.hf_home {
        return join(home.as_str(), "token");
    }
    join(dot_if_none(home_of(env)), ".cache/huggingface/token")
}

/// The hub cache as the *environment* describes it.
///
/// Resolution matches `huggingface_hub`'s own (`HF_HUB_CACHE`, then `$HF_HOME/hub`, then
/// the documented default), so paddock agrees with the rest of the ecosystem when those are
/// set. Prefer [`LibraryCfg::hub_cache`], which lets configuration override all of it:
/// getting this wrong is otherwise invisible, and the library simply looks empty on a
/// machine holding hundreds of gigabytes.
pub fn hub_cache_dir(env: &HfEnv) -> (r: String)
    ensures
        r@ == cache_of(*env),
{
    if let Some(dir) = &env.hub_cache {
        return dir.clone();
    }
    if let Some(home) = &env.hf_home {
        return join(home.as_str(), "hub");
    }
    join(dot_if_none(home_of(env)), ".cache/huggingface/hub")
}

/// `paths`, each with its `~` expanded.
pub open spec fn all_expanded(paths: Seq<Seq<char>>, home: Option<Seq<char>>) -> Seq<Seq<char>> {
    Seq::new(paths.len(), |i: int| expanded(paths[i], home))
}

/// One of `paths` leads to the same place as `p`.
pub open spec fn among(paths: Seq<Seq<char>>, p: Seq<char>) -> bool {
    exists|i: int| 0 <= i < paths.len() && same_place(#[trigger] paths[i], p)
}

/// `paths` with `p` behind them, unless it is there.
pub open spec fn with_place(paths: Seq<Seq<char>>, p: Seq<char>) -> Seq<Seq<char>> {
    if among(paths, p) {
        paths
    } else {
        paths.push(p)
    }
}

fn is_among(paths: &Vec<String>, p: &str) -> (r: bool)
    ensures
        r == among(texts(paths@), p@),
{
    let mut i: usize = 0;
    assert(texts(paths@).len() == paths.len());
    while i < paths.len()
        invariant
            i <= paths.len(),
            texts(paths@).len() == paths.len(),
            forall|j: int| 0 <= j < i ==> !same_place(#[trigger] texts(paths@)[j], p@),
        decreases paths.len() - i,
    {
        assert(texts(paths@)[i as int] == paths@[i as int]@);
        if same_path(paths[i].as_str(), p) {
            return true;
        }
        i = i + 1;
    }
    false
}

fn push_place(paths: &mut Vec<String>, p: String)
    ensures
        texts(final(paths)@) == with_place(texts(old(paths)@), p@),
{
    if !is_among(paths, p.as_str()) {
        proof {
            lemma_texts_push(paths@, p);
        }
        paths.push(p);
    }
}

// ---------------------------------------------------------------- overrides

/// What the command line says over the file.
#[derive(Debug, Default)]
pub struct Overrides {
    pub host: Option<String>,
    pub port: Option<u16>,
    pub ft_binary: Option<String>,
    pub venv: Option<String>,
    pub theme: Option<String>,
    /// Further directories to scan.
    pub model_roots: Vec<String>,
}

/// `paths` with each of `more` behind them that is not there yet.
pub open spec fn with_places(paths: Seq<Seq<char>>, more: Seq<Seq<char>>) -> Seq<Seq<char>>
    decreases more.len(),
{
    if more.len() == 0 {
        paths
    } else {
        with_place(with_places(paths, more.drop_last()), more.last())
    }
}

pub open spec fn said_or(said: Option<String>, filed: Seq<char>) -> Seq<char> {
    match said {
        Some(s) => s@,
        None => filed,
    }
}

fn copy_if_said(said: &Option<String>, filed: String) -> (r: String)
    ensures
        r@ == said_or(*said, filed@),
{
    match said {
        Some(s) => s.clone(),
        None => filed,
    }
}

impl Config {
    /// Merge what the command line says over the file. The file stays authoritative for
    /// anything not given there, and nothing of it is written back.
    pub fn overridden(self, with: &Overrides) -> (r: Config)
        ensures
            r.server.host@ == said_or(with.host, self.server.host@),
            r.server.port == (match with.port {
                Some(p) => p,
                None => self.server.port,
            }),
            r.server.poll_ms == self.server.poll_ms,
            r.server.timeout_ms == self.server.timeout_ms,
            opt_text(r.freetoken.binary) == (if with.ft_binary is Some {
                opt_text(with.ft_binary)
            } else {
                opt_text(self.freetoken.binary)
            }),
            opt_text(r.freetoken.venv) == (if with.venv is Some {
                opt_text(with.venv)
            } else {
                opt_text(self.freetoken.venv)
            }),
            r.freetoken.env == self.freetoken.env,
            r.freetoken.checkout == self.freetoken.checkout,
            r.freetoken.checkout_poll_min == self.freetoken.checkout_poll_min,
            r.ui.theme@ == said_or(with.theme, self.ui.theme@),
            r.ui.tick_ms == self.ui.tick_ms,
            r.ui.log_capacity == self.ui.log_capacity,
            r.ui.confirm_destructive == self.ui.confirm_destructive,
            texts(r.library.roots@) == with_places(
                texts(self.library.roots@),
                texts(with.model_roots@),
            ),
            r.library == (LibraryCfg { roots: r.library.roots, ..self.library }),
            r.hub == self.hub,
            r.templates == self.templates,
            r.convert == self.convert,
            r.web == self.web,
    {
        let mut c = self;
        c.server.host = copy_if_said(&with.host, c.server.host);
        if let Some(p) = with.port {
            c.server.port = p;
        }
        if let Some(b) = &with.ft_binary {
            c.freetoken.binary = Some(b.clone());
        }
        if let Some(v) = &with.venv {
            c.freetoken.venv = Some(v.clone());
        }
        c.ui.theme = copy_if_said(&with.theme, c.ui.theme);
        let ghost filed = texts(self.library.roots@);
        let ghost more = texts(with.model_roots@);
        let mut roots = c.library.roots;
        let mut i: usize = 0;
        assert(more.take(0) =~= Seq::<Seq<char>>::empty());
        while i < with.model_roots.len()
            invariant
                i <= with.model_roots.len(),
                more == texts(with.model_roots@),
                texts(roots@) == with_places(filed, more.take(i as int)),
            decreases with.model_roots.len() - i,
        {
            assert(more.take(i + 1).drop_last() =~= more.take(i as int));
            assert(more.take(i + 1).last() == with.model_roots@[i as int]@);
            push_place(&mut roots, with.model_roots[i].clone());
            i = i + 1;
        }
        assert(more.take(i as int) =~= more);
        c.library.roots = roots;
        c
    }
}

impl LibraryCfg {
    pub open spec fn is_default(self, home: Option<Seq<char>>) -> bool {
        let models = joined_path(or_dot(home), "models"@);
        texts(self.roots@) == seq![models] && self.download_dir@ == models && self.hub_cache is None
            && self.ftw_dir is None
    }

    pub fn defaults(home: Option<&str>) -> (r: Self)
        ensures
            r.is_default(opt_str(home)),
    {
        let models = join(dot_if_none(home), "models");
        let roots: Vec<String> = vec![models.clone()];
        assert(texts(roots@) =~= seq![models@]);
        LibraryCfg { roots, download_dir: models, hub_cache: None, ftw_dir: None }
    }

    /// The hub cache that a configuration leads to.
    pub open spec fn cache(self, env: HfEnv) -> Seq<char> {
        match self.hub_cache {
            Some(dir) => expanded(dir@, opt_text(env.home)),
            None => cache_of(env),
        }
    }

    /// The directory of FTW builds that a configuration leads to.
    pub open spec fn builds(self, home: Option<Seq<char>>) -> Seq<char> {
        expanded(
            match self.ftw_dir {
                Some(dir) => dir@,
                None => self.download_dir@,
            },
            home,
        )
    }

    /// Every root actually scanned.
    pub open spec fn scanned(self, env: HfEnv) -> Seq<Seq<char>> {
        let home = opt_text(env.home);
        with_place(
            with_place(all_expanded(texts(self.roots@), home), self.cache(env)),
            self.builds(home),
        )
    }

    /// Every root actually scanned: the configured ones plus the Hugging Face hub cache,
    /// which is where anything downloaded by `hf`, `from_pretrained`, or another engine
    /// on this machine already is. Added implicitly so the common case needs no config,
    /// and deduplicated so listing it explicitly is harmless.
    ///
    /// The FTW directory too. It defaults to `download_dir`, which is usually already a
    /// root, but when it is configured somewhere else, every build paddock itself wrote
    /// would be invisible to the library that offered to write it.
    pub fn effective_roots(&self, env: &HfEnv) -> (r: Vec<String>)
        ensures
            texts(r@) == self.scanned(*env),
    {
        let mut roots: Vec<String> = Vec::new();
        let ghost all = all_expanded(texts(self.roots@), opt_text(env.home));
        let mut i: usize = 0;
        assert(texts(roots@) =~= all.take(0));
        while i < self.roots.len()
            invariant
                i <= self.roots.len(),
                all == all_expanded(texts(self.roots@), opt_text(env.home)),
                texts(roots@) == all.take(i as int),
            decreases self.roots.len() - i,
        {
            let p = expand_tilde(self.roots[i].as_str(), home_of(env));
            proof {
                assert(texts(self.roots@)[i as int] == self.roots@[i as int]@);
                lemma_texts_push(roots@, p);
                assert(all.take(i + 1) =~= all.take(i as int).push(all[i as int]));
            }
            roots.push(p);
            i = i + 1;
        }
        assert(all.take(i as int) =~= all);
        push_place(&mut roots, self.hub_cache(env));
        push_place(&mut roots, self.ftw_dir(home_of(env)));
        roots
    }

    /// The hub cache this run reads and downloads into.
    ///
    /// Configuration first, deliberately. Everything else here is inherited from an
    /// environment that may or may not have been set up, and a tool that behaves
    /// differently depending on how its terminal was started is a tool nobody can debug.
    pub fn hub_cache(&self, env: &HfEnv) -> (r: String)
        ensures
            r@ == self.cache(*env),
    {
        match &self.hub_cache {
            Some(dir) => expand_tilde(dir.as_str(), home_of(env)),
            None => hub_cache_dir(env),
        }
    }

    /// Where FTW builds go.
    pub fn ftw_dir(&self, home: Option<&str>) -> (r: String)
        ensures
            r@ == self.builds(opt_str(home)),
    {
        match &self.ftw_dir {
            Some(dir) => expand_tilde(dir.as_str(), home),
            None => expand_tilde(self.download_dir.as_str(), home),
        }
    }
}

/// A configured cache beats whatever the environment says.
pub proof fn law_a_configured_cache_beats_the_environment(lib: LibraryCfg, a: HfEnv, b: HfEnv)
    requires
        lib.hub_cache is Some,
        a.home == b.home,
    ensures
        lib.cache(a) == lib.cache(b),
{
}

proof fn lemma_with_place(paths: Seq<Seq<char>>, p: Seq<char>, q: Seq<char>)
    ensures
        among(with_place(paths, p), p),
        among(paths, q) ==> among(with_place(paths, p), q),
        forall|i: int|
            0 <= i < paths.len() ==> #[trigger] with_place(paths, p)[i] == paths[i],
        with_place(paths, p).len() >= paths.len(),
{
    let r = with_place(paths, p);
    if !among(paths, p) {
        assert(same_place(r[paths.len() as int], p));
    }
    if among(paths, q) {
        let i = choose|i: int| 0 <= i < paths.len() && same_place(#[trigger] paths[i], q);
        assert(same_place(r[i], q));
    }
}

/// The hub cache and the directory of builds are always scanned, whether or not they are
/// listed as roots, and listing one does not scan it twice: neither is added where a root
/// already leads to its place.
pub proof fn law_the_cache_and_the_builds_are_scanned_once(lib: LibraryCfg, env: HfEnv)
    ensures
        among(lib.scanned(env), lib.cache(env)),
        among(lib.scanned(env), lib.builds(opt_text(env.home))),
        ({
            let listed = all_expanded(texts(lib.roots@), opt_text(env.home));
            among(listed, lib.cache(env)) && among(listed, lib.builds(opt_text(env.home)))
                ==> lib.scanned(env) == listed
        }),
{
    let listed = all_expanded(texts(lib.roots@), opt_text(env.home));
    let builds = lib.builds(opt_text(env.home));
    lemma_with_place(listed, lib.cache(env), builds);
    lemma_with_place(with_place(listed, lib.cache(env)), builds, lib.cache(env));
}

#[derive(Debug, Clone)]
pub struct HubCfg {
    /// Hugging Face endpoint; override for a mirror.
    pub endpoint: String,
    /// Access token for gated or private repos. `HF_TOKEN` in the environment wins.
    pub token: Option<String>,
    /// Concurrent file downloads, passed to `hf download --max-workers`.
    pub concurrency: usize,
    /// Glob-ish suffixes skipped by default (duplicate weight formats, mostly).
    pub ignore: Vec<String>,
    /// Explicit path to the `hf` CLI. Overrides discovery, which looks in the FreeToken
    /// venv (it ships `huggingface_hub`) before falling back to PATH.
    pub cli: Option<String>,
}

impl Default for HubCfg {
    fn default() -> (r: Self)
        ensures
            r.is_default(),
    {
        let ignore: Vec<String> = vec![
            "*.bin".to_owned(),
            "*.pth".to_owned(),
            "*.msgpack".to_owned(),
            "*.h5".to_owned(),
            "*.onnx".to_owned(),
        ];
        assert(texts(ignore@) =~= seq!["*.bin"@, "*.pth"@, "*.msgpack"@, "*.h5"@, "*.onnx"@]);
        HubCfg {
            endpoint: "https://huggingface.co".to_owned(),
            token: None,
            cli: None,
            concurrency: 4,
            ignore,
        }
    }
}

/// A Hugging Face token plus where it came from. Resolved once at startup and passed
/// around, so every part of the UI agrees about whether there is a token: the message
/// on the Hub tab and the client that does the downloading must never disagree.
#[derive(Debug, Clone)]
pub struct HubToken {
    pub value: String,
    /// Human-readable provenance, e.g. `the HF_TOKEN environment variable`.
    pub source: &'static str,
}

/// Something is left of `t` once it is trimmed.
pub open spec fn filled(t: Option<Seq<char>>) -> bool {
    t is Some && trimmed(t->0).len() > 0
}

/// The token that counts, with its provenance: the first of the sources, in their order,
/// that is not blank.
pub open spec fn token_of(
    first: Option<Seq<char>>,
    second: Option<Seq<char>>,
    config: Option<Seq<char>>,
    file: Option<Seq<char>>,
) -> Option<(Seq<char>, Seq<char>)> {
    if filled(first) {
        Some((trimmed(first->0), "the HF_TOKEN environment variable"@))
    } else if filled(second) {
        Some((trimmed(second->0), "the HUGGING_FACE_HUB_TOKEN environment variable"@))
    } else if filled(config) {
        Some((trimmed(config->0), "hub.token in the config"@))
    } else if filled(file) {
        Some((trimmed(file->0), "the token cached by the hf CLI"@))
    } else {
        None
    }
}

fn token_from(raw: Option<&str>, source: &'static str) -> (r: Option<HubToken>)
    ensures
        r is Some == filled(opt_str(raw)),
        r matches Some(t) ==> t.value@ == trimmed(raw->0@) && t.source@ == source@,
{
    match raw {
        Some(s) => {
            let value = trim(s);
            if value.as_str().is_empty() {
                None
            } else {
                Some(HubToken { value, source })
            }
        },
        None => None,
    }
}

impl HubCfg {
    pub open spec fn is_default(self) -> bool {
        &&& self.endpoint@ == "https://huggingface.co"@
        &&& self.token is None
        &&& self.cli is None
        &&& self.concurrency == 4
        &&& texts(self.ignore@) == seq!["*.bin"@, "*.pth"@, "*.msgpack"@, "*.h5"@, "*.onnx"@]
    }

    /// The effective token: `HF_TOKEN`, then `HUGGING_FACE_HUB_TOKEN`, then `hub.token`
    /// in the config, then the token the `hf` CLI caches. A blank one is the same as none,
    /// and must not shadow the other sources.
    pub fn resolve_token(&self, first: Option<&str>, second: Option<&str>, file: Option<&str>) -> (r:
        Option<HubToken>)
        ensures
            (match r {
                Some(t) => Some((t.value@, t.source@)),
                None => None,
            }) == token_of(opt_str(first), opt_str(second), opt_text(self.token), opt_str(file)),
    {
        let config: Option<&str> = match &self.token {
            Some(t) => Some(t.as_str()),
            None => None,
        };
        if let Some(t) = token_from(first, "the HF_TOKEN environment variable") {
            return Some(t);
        }
        if let Some(t) = token_from(second, "the HUGGING_FACE_HUB_TOKEN environment variable") {
            return Some(t);
        }
        if let Some(t) = token_from(config, "hub.token in the config") {
            return Some(t);
        }
        token_from(file, "the token cached by the hf CLI")
    }
}

/// A token that counts has no space around it and is never blank.
pub proof fn law_a_token_is_never_blank(
    first: Option<Seq<char>>,
    second: Option<Seq<char>>,
    config: Option<Seq<char>>,
    file: Option<Seq<char>>,
)
    ensures
        token_of(first, second, config, file) matches Some((value, _)) ==> value.len() > 0,
        token_of(first, second, config, file) is None <==> !filled(first) && !filled(second)
            && !filled(config) && !filled(file),
{
}

/// Checkpoint conversion to FTW.
#[derive(Debug, Clone)]
pub struct ConvertCfg {
    /// Ask FreeToken what it makes of a checkpoint before converting it. Costs a few
    /// seconds against a job that otherwise runs for minutes and writes tens of
    /// gigabytes before discovering it cannot read the experts.
    pub preflight: bool,
}

impl Default for ConvertCfg {
    fn default() -> (r: Self)
        ensures
            r.preflight,
    {
        ConvertCfg { preflight: true }
    }
}

/// Chat template overrides. FreeToken has no flag for this, so a template is applied by
/// writing `chat_template.jinja` into the checkpoint directory; see `crate::templates`.
#[derive(Debug, Clone)]
pub struct TemplatesCfg {
    /// Hugging Face repos offered when fetching templates. Any repo holding `.jinja`
    /// files works; these are just the ones listed first.
    pub sources: Vec<String>,
    /// Run a real `apply_chat_template` render through FreeToken's Python before writing
    /// a template into a checkpoint. Catches the failures a text check cannot.
    pub preflight: bool,
}

impl Default for TemplatesCfg {
    fn default() -> (r: Self)
        ensures
            r.is_default(),
    {
        let sources: Vec<String> = vec!["peculiar-ragdoll/Qwen-Sharp-Chat-Templates".to_owned()];
        assert(texts(sources@) =~= seq!["peculiar-ragdoll/Qwen-Sharp-Chat-Templates"@]);
        TemplatesCfg { sources, preflight: true }
    }
}

impl TemplatesCfg {
    pub open spec fn is_default(self) -> bool {
        texts(self.sources@) == seq!["peculiar-ragdoll/Qwen-Sharp-Chat-Templates"@]
            && self.preflight
    }
}

/// The browser interface `paddock web` serves.
#[derive(Debug, Clone)]
pub struct WebCfg {
    /// Address to bind. 7979 sits well away from the engine's 1919 and the 192x range
    /// FreeToken's own subprocesses use.
    pub listen: String,
    /// Bearer token every `/api` request must carry. Unset means no authentication at
    /// all, which is `ft serve`'s own default.
    pub token: Option<String>,
}

impl Default for WebCfg {
    fn default() -> (r: Self)
        ensures
            r.is_default(),
    {
        WebCfg { listen: "0.0.0.0:7979".to_owned(), token: None }
    }
}

impl WebCfg {
    pub open spec fn is_default(self) -> bool {
        self.listen@ == "0.0.0.0:7979"@ && self.token is None
    }
}

#[derive(Debug, Clone)]
pub struct UiCfg {
    /// `auto`, `dark`, `light`, or `mono`.
    pub theme: String,
    /// Frame budget for the render loop, in milliseconds.
    pub tick_ms: u64,
    /// Lines of engine output kept in memory for the Logs view.
    pub log_capacity: usize,
    /// Ask before stopping the engine or deleting anything.
    pub confirm_destructive: bool,
}

impl Default for UiCfg {
    fn default() -> (r: Self)
        ensures
            r.is_default(),
    {
        UiCfg {
            theme: "auto".to_owned(),
            tick_ms: 200,
            log_capacity: 5000,
            confirm_destructive: true,
        }
    }
}

impl UiCfg {
    pub open spec fn is_default(self) -> bool {
        self.theme@ == "auto"@ && self.tick_ms == 200 && self.log_capacity == 5000
            && self.confirm_destructive
    }
}

// ---------------------------------------------------------------- profiles

/// A named, reusable `ft serve` configuration.
pub struct Profile {
    pub name: String,
    pub notes: String,
    /// Knob key -> value, as stored by [`ServeConfig`].
    pub serve: ServeConfig,
}

pub struct ProfileView {
    pub name: Seq<char>,
    pub notes: Seq<char>,
    pub serve: Map<Seq<char>, Seq<char>>,
}

impl View for Profile {
    type V = ProfileView;

    open spec fn view(&self) -> ProfileView {
        ProfileView { name: self.name@, notes: self.notes@, serve: self.serve@ }
    }
}

pub struct Profiles {
    pub items: Vec<Profile>,
    /// Name of the profile selected when paddock last exited.
    pub last_used: Option<String>,
}

pub struct ProfilesView {
    pub items: Seq<ProfileView>,
    pub last_used: Option<Seq<char>>,
}

pub open spec fn profile_views(items: Seq<Profile>) -> Seq<ProfileView> {
    Seq::new(items.len(), |i: int| items[i]@)
}

impl View for Profiles {
    type V = ProfilesView;

    open spec fn view(&self) -> ProfilesView {
        ProfilesView { items: profile_views(self.items@), last_used: opt_text(self.last_used) }
    }
}

impl Default for Profiles {
    fn default() -> (r: Self)
        ensures
            r@ == (ProfilesView { items: Seq::empty(), last_used: None }),
    {
        let r = Profiles { items: Vec::new(), last_used: None };
        assert(r@.items =~= Seq::<ProfileView>::empty());
        r
    }
}

/// The profiles under their names.
pub open spec fn by_name(items: Seq<ProfileView>) -> Seq<(Seq<char>, ProfileView)> {
    Seq::new(items.len(), |i: int| (items[i].name, items[i]))
}

/// Where the first profile called `name` stands; the length when there is none.
pub open spec fn slot_of(items: Seq<ProfileView>, name: Seq<char>) -> nat
    decreases items.len(),
{
    if items.len() == 0 || items[0].name == name {
        0
    } else {
        1 + slot_of(items.drop_first(), name)
    }
}

/// The first profile called `name`.
pub open spec fn profile_named(items: Seq<ProfileView>, name: Seq<char>) -> Option<ProfileView> {
    let i = slot_of(items, name);
    if i < items.len() {
        Some(items[i as int])
    } else {
        None
    }
}

/// `items` with `p` in place of the first profile of its name, or behind them.
pub open spec fn with_profile(items: Seq<ProfileView>, p: ProfileView) -> Seq<ProfileView> {
    let i = slot_of(items, p.name) as int;
    if i < items.len() {
        items.update(i, p)
    } else {
        items.push(p)
    }
}

pub open spec fn upserted(items: Seq<ProfileView>, p: ProfileView) -> Seq<ProfileView> {
    values(ordered(by_name(with_profile(items, p))))
}

/// `items` without those called `name`.
pub open spec fn without_name(items: Seq<ProfileView>, name: Seq<char>) -> Seq<ProfileView>
    decreases items.len(),
{
    if items.len() == 0 {
        items
    } else {
        let head = without_name(items.drop_last(), name);
        if items.last().name == name {
            head
        } else {
            head.push(items.last())
        }
    }
}

pub proof fn lemma_slot(items: Seq<ProfileView>, name: Seq<char>, i: int)
    requires
        0 <= i <= items.len(),
        forall|j: int| 0 <= j < i ==> (#[trigger] items[j]).name != name,
        i == items.len() || items[i].name == name,
    ensures
        slot_of(items, name) == i,
    decreases items.len(),
{
    if i > 0 {
        let tail = items.drop_first();
        assert(items[0].name != name);
        assert forall|j: int| 0 <= j < i - 1 implies (#[trigger] tail[j]).name != name by {
            assert(tail[j] == items[j + 1]);
        }
        lemma_slot(tail, name, i - 1);
    }
}

impl Profiles {
    /// Where the first profile called `name` stands; the length when there is none.
    pub fn slot(&self, name: &str) -> (r: usize)
        ensures
            r == slot_of(self@.items, name@),
            r <= self.items@.len(),
            r < self.items@.len() ==> self.items@[r as int].name@ == name@,
    {
        let mut i: usize = 0;
        while i < self.items.len() && !same(self.items[i].name.as_str(), name)
            invariant
                i <= self.items.len(),
                forall|j: int| 0 <= j < i ==> (#[trigger] self@.items[j]).name != name@,
            decreases self.items.len() - i,
        {
            assert(self@.items[i as int].name == self.items@[i as int].name@);
            i = i + 1;
        }
        proof {
            lemma_slot(self@.items, name@, i as int);
        }
        i
    }

    pub fn get(&self, name: &str) -> (r: Option<&Profile>)
        ensures
            (match r {
                Some(p) => Some(p@),
                None => None,
            }) == profile_named(self@.items, name@),
    {
        let i = self.slot(name);
        if i < self.items.len() {
            Some(&self.items[i])
        } else {
            None
        }
    }

    /// Insert or replace by name, keeping the list sorted for a stable UI order.
    pub fn upsert(&mut self, profile: Profile)
        ensures
            final(self)@.items == upserted(old(self)@.items, profile@),
            final(self).last_used == old(self).last_used,
    {
        let ghost all = self@.items;
        let i = self.slot(profile.name.as_str());
        if i < self.items.len() {
            self.items.set(i, profile);
        } else {
            self.items.push(profile);
        }
        assert(self@.items =~= with_profile(all, profile@));
        let ghost mid = self.items@;
        let mut pairs: Vec<(String, Profile)> = Vec::new();
        while self.items.len() > 0
            invariant
                pairs@.len() + self.items@.len() == mid.len(),
                self.items@ =~= mid.skip(pairs@.len() as int),
                self.last_used == old(self).last_used,
                forall|j: int|
                    0 <= j < pairs@.len() ==> (#[trigger] pairs@[j]).0@ == mid[j].name@
                        && pairs@[j].1 == mid[j],
            decreases self.items.len(),
        {
            let ghost n = pairs@.len() as int;
            assert(mid.skip(n)[0] == mid[n]);
            let p = self.items.remove(0);
            assert(mid.skip(n).drop_first() =~= mid.skip(n + 1));
            pairs.push((p.name.clone(), p));
        }
        let ghost named = keyed(pairs@);
        self.items = sorted_values(pairs);
        proof {
            let f = |p: Profile| p@;
            lemma_ordered_mapped(named, f);
            assert(mapped(named, f) =~= by_name(profile_views(mid)));
            assert(self@.items =~= values(mapped(ordered(named), f)));
        }
    }

    /// Remove every profile called `name`. Returns whether there was one.
    pub fn remove(&mut self, name: &str) -> (r: bool)
        ensures
            final(self)@.items == without_name(old(self)@.items, name@),
            final(self).last_used == old(self).last_used,
            r == (final(self)@.items.len() != old(self)@.items.len()),
    {
        let before: usize = self.items.len();
        let ghost all = self@.items;
        let mut i: usize = 0;
        let ghost mut seen: int = 0;
        assert(all.take(0) =~= Seq::<ProfileView>::empty());
        assert(self@.items =~= Seq::<ProfileView>::empty() + all.skip(0));
        while i < self.items.len()
            invariant
                0 <= seen <= all.len(),
                i <= self.items@.len(),
                without_name(all.take(seen), name@).len() == i,
                self@.items =~= without_name(all.take(seen), name@) + all.skip(seen),
                self.last_used == old(self).last_used,
            decreases all.len() - seen,
        {
            let ghost head = without_name(all.take(seen), name@);
            let ghost now = self@.items;
            proof {
                assert(now.len() == head.len() + all.skip(seen).len());
                assert(now[i as int] == all.skip(seen)[0]);
                assert(now[i as int].name == self.items@[i as int].name@);
                assert(all.take(seen + 1).drop_last() =~= all.take(seen));
                assert(all.take(seen + 1).last() == all[seen]);
                assert(all.skip(seen).drop_first() =~= all.skip(seen + 1));
            }
            if same(self.items[i].name.as_str(), name) {
                let _ = self.items.remove(i);
                assert(self@.items =~= now.remove(i as int));
                assert(self@.items =~= head + all.skip(seen + 1));
            } else {
                assert(self@.items =~= head.push(all[seen]) + all.skip(seen + 1));
                i = i + 1;
            }
            proof {
                seen = seen + 1;
            }
        }
        proof {
            assert(all.skip(seen).len() == 0);
            assert(all.take(seen) =~= all);
            assert(self@.items =~= without_name(all, name@));
        }
        self.items.len() != before
    }
}

pub proof fn lemma_first_is_slot(items: Seq<ProfileView>, name: Seq<char>)
    ensures
        first_under(by_name(items), name) == profile_named(items, name),
        slot_of(items, name) <= items.len(),
        slot_of(items, name) < items.len() ==> items[slot_of(items, name) as int].name == name,
        forall|j: int| 0 <= j < slot_of(items, name) ==> (#[trigger] items[j]).name != name,
    decreases items.len(),
{
    if items.len() > 0 {
        let head = items.drop_last();
        lemma_first_is_slot(head, name);
        let n = items.len() - 1;
        assert(by_name(items).drop_last() =~= by_name(head));
        let i = slot_of(head, name) as int;
        assert forall|j: int| 0 <= j < i implies (#[trigger] items[j]).name != name by {
            assert(head[j] == items[j]);
        }
        if i < head.len() {
            assert(items[i] == head[i]);
            lemma_slot(items, name, i);
        } else if items[n].name == name {
            lemma_slot(items, name, n);
        } else {
            lemma_slot(items, name, n + 1);
        }
    }
}

/// What was put in under a name is what that name then gives back.
pub proof fn law_a_profile_put_in_is_found(items: Seq<ProfileView>, p: ProfileView)
    ensures
        profile_named(upserted(items, p), p.name) == Some(p),
{
    let mid = with_profile(items, p);
    let after = upserted(items, p);
    lemma_first_is_slot(items, p.name);
    let i = slot_of(items, p.name) as int;
    assert forall|j: int| 0 <= j < i implies (#[trigger] mid[j]).name != p.name by {
        assert(mid[j] == items[j]);
    }
    lemma_slot(mid, p.name, i);
    lemma_first_is_slot(mid, p.name);
    lemma_first_ordered(by_name(mid), p.name);
    lemma_ordered_by_name(mid);
    assert(by_name(after) =~= ordered(by_name(mid)));
    lemma_first_is_slot(after, p.name);
}

/// Ordering keeps each profile under its own name.
pub proof fn lemma_ordered_by_name(items: Seq<ProfileView>)
    ensures
        forall|i: int|
            0 <= i < ordered(by_name(items)).len() ==> (#[trigger] ordered(by_name(items))[i]).0
                == ordered(by_name(items))[i].1.name,
{
    let s = by_name(items);
    let o = ordered(s);
    lemma_ordered(s);
    broadcast use vstd::seq_lib::group_to_multiset_ensures;

    assert forall|i: int| 0 <= i < o.len() implies (#[trigger] o[i]).0 == o[i].1.name by {
        assert(o.contains(o[i]));
        assert(o.to_multiset().count(o[i]) > 0);
        assert(s.to_multiset().count(o[i]) > 0);
        assert(s.contains(o[i]));
    }
}

/// The list stays sorted by name, whatever is put in.
pub proof fn law_profiles_stay_sorted(items: Seq<ProfileView>, p: ProfileView)
    ensures
        in_order(by_name(upserted(items, p))),
{
    let mid = with_profile(items, p);
    lemma_ordered(by_name(mid));
    lemma_ordered_by_name(mid);
    assert(by_name(upserted(items, p)) =~= ordered(by_name(mid)));
}

/// A removed name gives nothing back, and every other name what it gave before.
pub proof fn law_a_removed_profile_is_gone(
    items: Seq<ProfileView>,
    name: Seq<char>,
    other: Seq<char>,
)
    ensures
        profile_named(without_name(items, name), name) is None,
        other != name ==> profile_named(without_name(items, name), other) == profile_named(
            items,
            other,
        ),
{
    lemma_removed(items, name, other);
    lemma_first_is_slot(without_name(items, name), name);
    lemma_first_is_slot(without_name(items, name), other);
    lemma_first_is_slot(items, other);
}

proof fn lemma_removed(items: Seq<ProfileView>, name: Seq<char>, other: Seq<char>)
    ensures
        first_under(by_name(without_name(items, name)), name) is None,
        other != name ==> first_under(by_name(without_name(items, name)), other) == first_under(
            by_name(items),
            other,
        ),
    decreases items.len(),
{
    if items.len() > 0 {
        let head = items.drop_last();
        lemma_removed(head, name, other);
        assert(by_name(items).drop_last() =~= by_name(head));
        let kept = without_name(head, name);
        if items.last().name != name {
            assert(by_name(kept.push(items.last())).drop_last() =~= by_name(kept));
        }
    }
}

} // verus!
