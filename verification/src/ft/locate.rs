//! Finding the FreeToken CLI on this machine.
//!
//! FreeToken installs into a virtualenv, so `ft` is usually *not* on the PATH of the
//! shell that launched paddock. Rather than making the user configure a path before the
//! tool does anything useful, look in the obvious places and report clearly what was
//! found.

use vstd::prelude::*;
use vstd::string::*;
use crate::config::FreetokenCfg;
use crate::paths::{display_name, join as join_path, joined_path, name_or_path};
use crate::text::{cat2, join, joined, lemma_texts_push, opt_str, opt_text, texts};

verus! {

#[derive(Debug, Clone)]
pub struct Freetoken {
    /// The executable to run. Either an `ft` binary or the Python interpreter.
    pub program: String,
    /// Arguments that must precede the subcommand (`-m freetoken.cli` for the Python form).
    pub prefix: Vec<String>,
    /// Where it was found, for display.
    pub origin: String,
}

/// What a found CLI is.
pub struct FreetokenView {
    pub program: Seq<char>,
    pub prefix: Seq<Seq<char>>,
    pub origin: Seq<char>,
}

impl View for Freetoken {
    type V = FreetokenView;

    open spec fn view(&self) -> FreetokenView {
        FreetokenView {
            program: self.program@,
            prefix: texts(self.prefix@),
            origin: self.origin@,
        }
    }
}

/// Copies `more` behind `out`.
pub fn extend_texts(out: &mut Vec<String>, more: &Vec<String>)
    ensures
        texts(final(out)@) == texts(old(out)@) + texts(more@),
{
    let ghost before = texts(out@);
    let mut i: usize = 0;
    assert(before + texts(more@).take(0) =~= before);
    while i < more.len()
        invariant
            i <= more.len(),
            texts(out@) == before + texts(more@).take(i as int),
        decreases more.len() - i,
    {
        let s = more[i].clone();
        proof {
            lemma_texts_push(out@, s);
            assert((before + texts(more@).take(i as int)).push(s@) =~= before + texts(more@).take(
                i + 1,
            ));
        }
        out.push(s);
        i = i + 1;
    }
    assert(texts(more@).take(i as int) =~= texts(more@));
}

pub fn copy_texts(v: &Vec<String>) -> (r: Vec<String>)
    ensures
        texts(r@) == texts(v@),
{
    let mut out: Vec<String> = Vec::new();
    assert(texts(out@) =~= Seq::<Seq<char>>::empty());
    extend_texts(&mut out, v);
    assert(Seq::<Seq<char>>::empty() + texts(v@) =~= texts(v@));
    out
}

impl Freetoken {
    pub open spec fn display_text(&self) -> Seq<char> {
        if self.prefix@.len() == 0 {
            name_or_path(self.program@)
        } else {
            "ft"@
        }
    }

    /// Build the argv for `ft <subcommand> <args...>`.
    pub fn argv(&self, subcommand: &str, args: &Vec<String>) -> (r: Vec<String>)
        ensures
            texts(r@) == self@.prefix.push(subcommand@) + texts(args@),
    {
        let mut argv = copy_texts(&self.prefix);
        let s = subcommand.to_owned();
        proof {
            lemma_texts_push(argv@, s);
        }
        argv.push(s);
        extend_texts(&mut argv, args);
        argv
    }

    /// How the command reads for display, e.g. `ft serve --model ...`.
    pub fn display_program(&self) -> (r: String)
        ensures
            r@ == self.display_text(),
    {
        if self.prefix.len() == 0 {
            display_name(self.program.as_str())
        } else {
            "ft".to_owned()
        }
    }

    pub fn copy(&self) -> (r: Self)
        ensures
            r@ == self@,
    {
        Freetoken {
            program: self.program.clone(),
            prefix: copy_texts(&self.prefix),
            origin: self.origin.clone(),
        }
    }
}

pub open spec fn direct_view(program: Seq<char>, origin: Seq<char>) -> FreetokenView {
    FreetokenView { program, prefix: Seq::empty(), origin }
}

pub open spec fn python_view(program: Seq<char>, origin: Seq<char>) -> FreetokenView {
    FreetokenView {
        program,
        prefix: seq!["-m"@, "freetoken.cli"@],
        origin: origin + " (python -m freetoken.cli)"@,
    }
}

pub fn direct(program: String, origin: &str) -> (r: Freetoken)
    ensures
        r@ == direct_view(program@, origin@),
{
    let r = Freetoken { program, prefix: Vec::new(), origin: origin.to_owned() };
    assert(r@.prefix =~= Seq::<Seq<char>>::empty());
    r
}

pub fn via_python(program: String, origin: &str) -> (r: Freetoken)
    ensures
        r@ == python_view(program@, origin@),
{
    let prefix: Vec<String> = vec!["-m".to_owned(), "freetoken.cli".to_owned()];
    let r = Freetoken { program, prefix, origin: cat2(origin, " (python -m freetoken.cli)") };
    assert(r@.prefix =~= seq!["-m"@, "freetoken.cli"@]);
    r
}

// ---------------------------------------------------------------- where to look

/// What has to hold of a candidate's program for it to be the one.
#[derive(Debug, Clone, Copy, PartialEq, Eq, Structural)]
pub enum Test {
    /// It is an executable file.
    Executable,
    /// It was found on PATH, which says so already.
    Given,
    /// It is an interpreter that can import `freetoken`.
    Imports,
}

/// A place to look: what to test, and what is found when the test holds.
#[derive(Debug)]
pub struct Candidate {
    pub test: Test,
    pub found: Freetoken,
}

pub open spec fn candidate_views(v: Seq<Candidate>) -> Seq<(Test, FreetokenView)> {
    Seq::new(v.len(), |i: int| (v[i].test, v[i].found@))
}

/// Directories below the home directory, and elsewhere, in which a FreeToken venv ends up on
/// a single-purpose server.
pub const HOME_VENVS: [&'static str; 6] = [
    ".venv",
    "venv",
    "FreeToken/.venv",
    "freetoken/.venv",
    ".local/share/freetoken/venv",
    ".freetoken/venv",
];

pub const SYSTEM_BASES: [&'static str; 4] = [
    "/opt/freetoken",
    "/opt/FreeToken",
    "/usr/local/freetoken",
    "/srv/freetoken",
];

pub open spec fn home_venvs(home: Seq<char>, n: nat) -> Seq<Seq<char>>
    decreases n,
{
    if n == 0 {
        Seq::empty()
    } else {
        home_venvs(home, (n - 1) as nat).push(joined_path(home, HOME_VENVS@[n - 1]@))
    }
}

pub open spec fn system_venvs(n: nat) -> Seq<Seq<char>>
    decreases n,
{
    if n == 0 {
        Seq::empty()
    } else {
        let base = SYSTEM_BASES@[n - 1]@;
        system_venvs((n - 1) as nat).push(base).push(joined_path(base, ".venv"@)).push(
            joined_path(base, "venv"@),
        )
    }
}

/// Conventional places of a FreeToken venv: the active one, those below the home directory,
/// and those of the whole machine.
pub open spec fn venv_list(virtual_env: Option<Seq<char>>, home: Option<Seq<char>>) -> Seq<
    Seq<char>,
> {
    let active = match virtual_env {
        Some(v) => seq![v],
        None => Seq::empty(),
    };
    let own = match home {
        Some(h) => home_venvs(h, 6),
        None => Seq::empty(),
    };
    active + own + system_venvs(4)
}

fn push_text(out: &mut Vec<String>, s: String)
    ensures
        texts(final(out)@) == texts(old(out)@).push(s@),
{
    proof {
        lemma_texts_push(out@, s);
    }
    out.push(s);
}

/// Conventional places a FreeToken venv ends up on a single-purpose server.
pub fn candidate_venvs(virtual_env: Option<&str>, home: Option<&str>) -> (r: Vec<String>)
    ensures
        texts(r@) == venv_list(opt_str(virtual_env), opt_str(home)),
{
    let mut out: Vec<String> = Vec::new();
    assert(texts(out@) =~= Seq::<Seq<char>>::empty());
    if let Some(v) = virtual_env {
        push_text(&mut out, v.to_owned());
    }
    let ghost active = texts(out@);
    assert(active =~= (match opt_str(virtual_env) {
        Some(v) => seq![v],
        None => Seq::empty(),
    }));
    if let Some(h) = home {
        let mut i: usize = 0;
        assert(active + home_venvs(h@, 0) =~= active);
        while i < 6
            invariant
                i <= 6,
                texts(out@) == active + home_venvs(h@, i as nat),
            decreases 6 - i,
        {
            push_text(&mut out, join_path(h, HOME_VENVS[i]));
            assert((active + home_venvs(h@, i as nat)).push(
                joined_path(h@, HOME_VENVS@[i as int]@),
            ) =~= active + home_venvs(h@, (i + 1) as nat));
            i = i + 1;
        }
    }
    let ghost own = texts(out@);
    let mut i: usize = 0;
    assert(own + system_venvs(0) =~= own);
    while i < 4
        invariant
            i <= 4,
            texts(out@) == own + system_venvs(i as nat),
        decreases 4 - i,
    {
        let base = SYSTEM_BASES[i];
        push_text(&mut out, base.to_owned());
        push_text(&mut out, join_path(base, ".venv"));
        push_text(&mut out, join_path(base, "venv"));
        assert((own + system_venvs(i as nat)).push(base@).push(joined_path(base@, ".venv"@)).push(
            joined_path(base@, "venv"@),
        ) =~= own + system_venvs((i + 1) as nat));
        i = i + 1;
    }
    assert(texts(out@) =~= venv_list(opt_str(virtual_env), opt_str(home)));
    out
}

/// The `ft` of each venv, in their order.
pub open spec fn venv_candidates(venvs: Seq<Seq<char>>) -> Seq<(Test, FreetokenView)>
    decreases venvs.len(),
{
    if venvs.len() == 0 {
        Seq::empty()
    } else {
        venv_candidates(venvs.drop_last()).push(
            (
                Test::Executable,
                direct_view(joined_path(venvs.last(), "bin/ft"@), "discovered venv"@),
            ),
        )
    }
}

/// The interpreters on PATH, in their order.
pub open spec fn python_candidates(pythons: Seq<Seq<char>>) -> Seq<(Test, FreetokenView)>
    decreases pythons.len(),
{
    if pythons.len() == 0 {
        Seq::empty()
    } else {
        python_candidates(pythons.drop_last()).push(
            (Test::Imports, python_view(pythons.last(), "PATH python"@)),
        )
    }
}

/// Everything to try, in order: an explicit `binary`, then `<venv>/bin/ft`, then
/// `<venv>/bin/python -m freetoken.cli`, then `ft` on PATH, then a handful of conventional
/// venv locations, then any python on PATH that can import `freetoken`.
pub open spec fn candidate_list(
    binary: Option<Seq<char>>,
    venv: Option<Seq<char>>,
    ft_on_path: Option<Seq<char>>,
    venvs: Seq<Seq<char>>,
    pythons: Seq<Seq<char>>,
) -> Seq<(Test, FreetokenView)> {
    let explicit = match binary {
        Some(b) => seq![(Test::Executable, direct_view(b, "config: freetoken.binary"@))],
        None => Seq::empty(),
    };
    let configured = match venv {
        Some(v) => seq![
            (
                Test::Executable,
                direct_view(joined_path(v, "bin/ft"@), "config: freetoken.venv"@),
            ),
            (
                Test::Executable,
                python_view(joined_path(v, "bin/python"@), "config: freetoken.venv"@),
            ),
        ],
        None => Seq::empty(),
    };
    let on_path = match ft_on_path {
        Some(p) => seq![(Test::Given, direct_view(p, "PATH"@))],
        None => Seq::empty(),
    };
    explicit + configured + on_path + venv_candidates(venvs) + python_candidates(pythons)
}

fn offer(out: &mut Vec<Candidate>, test: Test, found: Freetoken)
    ensures
        candidate_views(final(out)@) == candidate_views(old(out)@).push((test, found@)),
{
    let ghost before = out@;
    out.push(Candidate { test, found });
    assert(candidate_views(out@) =~= candidate_views(before).push((test, found@)));
}

pub fn candidates(
    cfg: &FreetokenCfg,
    ft_on_path: Option<&str>,
    venvs: &Vec<String>,
    pythons: &Vec<String>,
) -> (r: Vec<Candidate>)
    ensures
        candidate_views(r@) == candidate_list(
            opt_text(cfg.binary),
            opt_text(cfg.venv),
            opt_str(ft_on_path),
            texts(venvs@),
            texts(pythons@),
        ),
{
    let mut out: Vec<Candidate> = Vec::new();
    assert(candidate_views(out@) =~= Seq::<(Test, FreetokenView)>::empty());
    if let Some(bin) = &cfg.binary {
        offer(&mut out, Test::Executable, direct(bin.clone(), "config: freetoken.binary"));
    }
    if let Some(venv) = &cfg.venv {
        offer(
            &mut out,
            Test::Executable,
            direct(join_path(venv.as_str(), "bin/ft"), "config: freetoken.venv"),
        );
        offer(
            &mut out,
            Test::Executable,
            via_python(join_path(venv.as_str(), "bin/python"), "config: freetoken.venv"),
        );
    }
    if let Some(p) = ft_on_path {
        offer(&mut out, Test::Given, direct(p.to_owned(), "PATH"));
    }
    let ghost head = candidate_views(out@);
    let mut i: usize = 0;
    assert(texts(venvs@).take(0) =~= Seq::<Seq<char>>::empty());
    assert(head + venv_candidates(texts(venvs@).take(0)) =~= head);
    while i < venvs.len()
        invariant
            i <= venvs.len(),
            candidate_views(out@) == head + venv_candidates(texts(venvs@).take(i as int)),
        decreases venvs.len() - i,
    {
        let ghost t = texts(venvs@).take(i + 1);
        let found = direct(join_path(venvs[i].as_str(), "bin/ft"), "discovered venv");
        proof {
            assert(t.drop_last() =~= texts(venvs@).take(i as int));
            assert(t.last() == venvs@[i as int]@);
            assert((head + venv_candidates(t.drop_last())).push((Test::Executable, found@)) =~= head
                + venv_candidates(t));
        }
        offer(&mut out, Test::Executable, found);
        i = i + 1;
    }
    assert(texts(venvs@).take(i as int) =~= texts(venvs@));
    let ghost middle = candidate_views(out@);
    let mut j: usize = 0;
    assert(texts(pythons@).take(0) =~= Seq::<Seq<char>>::empty());
    assert(middle + python_candidates(texts(pythons@).take(0)) =~= middle);
    while j < pythons.len()
        invariant
            j <= pythons.len(),
            candidate_views(out@) == middle + python_candidates(texts(pythons@).take(j as int)),
        decreases pythons.len() - j,
    {
        let ghost t = texts(pythons@).take(j + 1);
        let found = via_python(pythons[j].clone(), "PATH python");
        proof {
            assert(t.drop_last() =~= texts(pythons@).take(j as int));
            assert(t.last() == pythons@[j as int]@);
            assert((middle + python_candidates(t.drop_last())).push((Test::Imports, found@))
                =~= middle + python_candidates(t));
        }
        offer(&mut out, Test::Imports, found);
        j = j + 1;
    }
    assert(texts(pythons@).take(j as int) =~= texts(pythons@));
    assert(candidate_views(out@) =~= candidate_list(
        opt_text(cfg.binary),
        opt_text(cfg.venv),
        opt_str(ft_on_path),
        texts(venvs@),
        texts(pythons@),
    ));
    out
}

/// What was tried when nothing was found.
pub open spec fn tried_list(binary: Option<Seq<char>>, venv: Option<Seq<char>>) -> Seq<Seq<char>> {
    let explicit = match binary {
        Some(b) => seq![b + " (config)"@],
        None => Seq::empty(),
    };
    let configured = match venv {
        Some(v) => seq![v + " (config venv)"@],
        None => Seq::empty(),
    };
    explicit + configured + seq!["ft on PATH"@, "python -m freetoken.cli"@]
}

pub open spec fn not_found_text(
    binary: Option<Seq<char>>,
    venv: Option<Seq<char>>,
    config_path: Seq<char>,
) -> Seq<char> {
    "could not find the FreeToken CLI (tried: "@ + joined(tried_list(binary, venv), ", "@)
        + "). Set freetoken.binary or freetoken.venv in "@ + config_path + "."@
}

/// The first candidate whose test holds.
pub open spec fn first_passing(passed: Seq<bool>, i: int) -> Option<int>
    decreases passed.len() - i,
{
    if i < 0 || i >= passed.len() {
        None
    } else if passed[i] {
        Some(i)
    } else {
        first_passing(passed, i + 1)
    }
}

/// Resolve the FreeToken CLI, preferring explicit configuration over discovery: the first
/// candidate whose test holds. `passed` says for each candidate whether it does; the tests
/// behind the first that holds need not be made.
pub fn resolve(
    cfg: &FreetokenCfg,
    list: &Vec<Candidate>,
    passed: &Vec<bool>,
    config_path: &str,
) -> (r: Result<Freetoken, String>)
    requires
        passed.len() <= list.len(),
    ensures
        match (r, first_passing(passed@, 0)) {
            (Ok(ft), Some(i)) => ft@ == list@[i].found@,
            (Err(e), None) => e@ == not_found_text(
                opt_text(cfg.binary),
                opt_text(cfg.venv),
                config_path@,
            ),
            _ => false,
        },
{
    let mut i: usize = 0;
    while i < passed.len()
        invariant
            i <= passed.len() <= list.len(),
            first_passing(passed@, 0) == first_passing(passed@, i as int),
        decreases passed.len() - i,
    {
        if passed[i] {
            return Ok(list[i].found.copy());
        }
        i = i + 1;
    }
    let mut tried: Vec<String> = Vec::new();
    if let Some(bin) = &cfg.binary {
        tried.push(cat2(bin.as_str(), " (config)"));
    }
    if let Some(venv) = &cfg.venv {
        tried.push(cat2(venv.as_str(), " (config venv)"));
    }
    tried.push("ft on PATH".to_owned());
    tried.push("python -m freetoken.cli".to_owned());
    assert(texts(tried@) =~= tried_list(opt_text(cfg.binary), opt_text(cfg.venv)));
    let mut s = "could not find the FreeToken CLI (tried: ".to_owned();
    s.append(join(&tried, ", ").as_str());
    s.append("). Set freetoken.binary or freetoken.venv in ");
    s.append(config_path);
    s.append(".");
    Err(s)
}

/// The first line that `ft --version` prints, when it says something.
pub open spec fn version_of(stdout: Seq<char>) -> Option<Seq<char>> {
    let l = crate::text::lines_of(stdout);
    if l.len() == 0 || crate::text::trimmed(l[0]).len() == 0 {
        None
    } else {
        Some(crate::text::trimmed(l[0]))
    }
}

/// Read the version out of what `ft --version` printed.
pub fn read_version(stdout: &str) -> (r: Option<String>)
    ensures
        opt_text(r) == version_of(stdout@),
{
    let l = crate::text::lines(stdout);
    assert(texts(l@).len() == l.len());
    if l.len() == 0 {
        return None;
    }
    assert(texts(l@)[0] == l@[0]@);
    let t = crate::text::trim(l[0].as_str());
    if t.as_str().is_empty() {
        None
    } else {
        Some(t)
    }
}

/// A program named with a slash is a path; any other is looked for in each directory of
/// PATH in turn.
pub open spec fn lookup_list(name: Seq<char>, dirs: Seq<Seq<char>>) -> Seq<Seq<char>> {
    if name.contains('/') {
        seq![name]
    } else {
        Seq::new(dirs.len(), |i: int| joined_path(dirs[i], name))
    }
}

/// The files that `name` can stand for; the first that is executable is meant.
pub fn which(name: &str, path_dirs: &Vec<String>) -> (r: Vec<String>)
    ensures
        texts(r@) == lookup_list(name@, texts(path_dirs@)),
{
    let mut out: Vec<String> = Vec::new();
    if crate::text::contains_char(name, '/') {
        out.push(name.to_owned());
        assert(texts(out@) =~= lookup_list(name@, texts(path_dirs@)));
        return out;
    }
    let ghost all = lookup_list(name@, texts(path_dirs@));
    let mut i: usize = 0;
    assert(texts(out@) =~= all.take(0));
    while i < path_dirs.len()
        invariant
            i <= path_dirs.len(),
            all.len() == path_dirs.len(),
            forall|j: int|
                0 <= j < all.len() ==> #[trigger] all[j] == joined_path(path_dirs@[j]@, name@),
            texts(out@) == all.take(i as int),
        decreases path_dirs.len() - i,
    {
        push_text(&mut out, join_path(path_dirs[i].as_str(), name));
        assert(all.take(i + 1) =~= all.take(i as int).push(all[i as int]));
        i = i + 1;
    }
    assert(all.take(i as int) =~= all);
    out
}

// ---------------------------------------------------------------- laws

/// Explicit configuration beats discovery: a configured binary stands before everything
/// else, and a configured venv before everything but the binary.
pub proof fn law_configuration_comes_first(
    binary: Option<Seq<char>>,
    venv: Option<Seq<char>>,
    ft_on_path: Option<Seq<char>>,
    venvs: Seq<Seq<char>>,
    pythons: Seq<Seq<char>>,
)
    ensures
        ({
            let l = candidate_list(binary, venv, ft_on_path, venvs, pythons);
            &&& binary is Some ==> l.len() > 0 && l[0] == (
                Test::Executable,
                direct_view(binary->0, "config: freetoken.binary"@),
            )
            &&& binary is None && venv is Some ==> l.len() > 1 && l[0].1.program == joined_path(
                venv->0,
                "bin/ft"@,
            ) && l[1].1.program == joined_path(venv->0, "bin/python"@)
        }),
{
}

} // verus!
