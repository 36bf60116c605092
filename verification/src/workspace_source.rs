//! Where the sidebar file tree of a terminal session lives.
//!
//! A local terminal browses its working directory (the home directory by
//! default); a `docker exec` session browses the container's file system
//! through `docker exec`.  Each kind of session is a
//! [`WorkspaceSourceResolver`]; [`default_workspace_resolvers`] lists them in
//! the order they are tried.
use vstd::prelude::*;
use std::path::PathBuf;
use crate::host_patterns::string_views;
use crate::paths::{home_dir, path_from, path_of};
use crate::text::{
    ascii_lower_seq, chars_of, copy_string, has_char, lower_chars, owned, text_eq, trim, trim_bounds,
};

verus! {

/// How a local terminal session is started.
pub struct LocalConfig {
    /// The program run in the terminal; the login shell when unset.
    pub shell: Option<String>,
    pub args: Vec<String>,
    pub working_dir: Option<PathBuf>,
    pub env: Vec<(String, String)>,
}

/// Environment pairs as text.
pub open spec fn env_views(env: Seq<(String, String)>) -> Seq<(Seq<char>, Seq<char>)> {
    Seq::new(env.len(), |i: int| (env[i].0@, env[i].1@))
}

/// The docker invocation needed to browse a container: the program and the
/// global arguments before `exec`.
#[derive(Debug, Clone, PartialEq, Eq)]
pub struct DockerInvocation {
    /// `docker`, a path to it, or the Navop provider `docker-provider`.
    pub program: String,
    /// Global arguments before `exec`, such as `--context prod`.
    pub global_args: Vec<String>,
    /// The terminal's environment (`DOCKER_HOST` and the like), passed on so
    /// that file browsing reaches the same daemon.
    pub env: Vec<(String, String)>,
}

/// The mathematical value of a docker invocation.
pub struct DockerView {
    pub program: Seq<char>,
    pub global_args: Seq<Seq<char>>,
    pub env: Seq<(Seq<char>, Seq<char>)>,
}

impl View for DockerInvocation {
    type V = DockerView;

    open spec fn view(&self) -> DockerView {
        DockerView {
            program: self.program@,
            global_args: string_views(self.global_args@),
            env: env_views(self.env@),
        }
    }
}

/// Copies of strings.
fn copy_strings(v: &Vec<String>) -> (r: Vec<String>)
    ensures
        string_views(r@) == string_views(v@),
{
    let mut r: Vec<String> = Vec::new();
    let mut i: usize = 0;
    while i < v.len()
        invariant
            i <= v@.len(),
            string_views(r@) == string_views(v@).subrange(0, i as int),
        decreases v.len() - i,
    {
        let ghost before = string_views(r@);
        r.push(copy_string(&v[i]));
        assert(string_views(r@) =~= before.push(v@[i as int]@));
        assert(string_views(v@).subrange(0, i + 1) =~= string_views(v@).subrange(0, i as int).push(
            v@[i as int]@,
        ));
        i = i + 1;
    }
    assert(string_views(v@).subrange(0, v@.len() as int) =~= string_views(v@));
    r
}

/// Copies of environment pairs.
fn copy_env(env: &Vec<(String, String)>) -> (r: Vec<(String, String)>)
    ensures
        env_views(r@) == env_views(env@),
{
    let mut r: Vec<(String, String)> = Vec::new();
    let mut i: usize = 0;
    while i < env.len()
        invariant
            i <= env@.len(),
            env_views(r@) == env_views(env@).subrange(0, i as int),
        decreases env.len() - i,
    {
        let ghost before = env_views(r@);
        let pair = (copy_string(&env[i].0), copy_string(&env[i].1));
        r.push(pair);
        assert(env_views(r@) =~= before.push((env@[i as int].0@, env@[i as int].1@)));
        assert(env_views(env@).subrange(0, i + 1) =~= env_views(env@).subrange(0, i as int).push(
            (env@[i as int].0@, env@[i as int].1@),
        ));
        i = i + 1;
    }
    assert(env_views(env@).subrange(0, env@.len() as int) =~= env_views(env@));
    r
}

impl DockerInvocation {
    /// The arguments of `docker <global...> exec <container> <command...>`.
    pub fn exec_args(&self, container: &str, command: &[String]) -> (r: Vec<String>)
        ensures
            string_views(r@) == self@.global_args + seq!["exec"@, container@] + string_views(command@),
    {
        let mut args = copy_strings(&self.global_args);
        args.push(owned("exec"));
        args.push(owned(container));
        let ghost front = string_views(args@);
        assert(front =~= self@.global_args + seq!["exec"@, container@]);
        let mut i: usize = 0;
        while i < command.len()
            invariant
                i <= command@.len(),
                string_views(args@) == front + string_views(command@).subrange(0, i as int),
            decreases command.len() - i,
        {
            let ghost before = string_views(args@);
            args.push(copy_string(&command[i]));
            assert(string_views(args@) =~= before.push(command@[i as int]@));
            assert(string_views(command@).subrange(0, i + 1) =~= string_views(command@).subrange(
                0,
                i as int,
            ).push(command@[i as int]@));
            i = i + 1;
        }
        assert(string_views(command@).subrange(0, command@.len() as int) =~= string_views(command@));
        args
    }
}

/// Where a session's file tree comes from.
#[derive(Debug, Clone, PartialEq, Eq)]
pub enum LocalWorkspaceSource {
    /// A path readable on this machine.
    Host { root: PathBuf },
    /// A container's file system, browsed through `docker exec`.
    Container { docker: DockerInvocation, container: String },
}

/// The mathematical value of a workspace source.
pub enum SourceView {
    Host(PathBuf),
    Container(DockerView, Seq<char>),
}

impl View for LocalWorkspaceSource {
    type V = SourceView;

    open spec fn view(&self) -> SourceView {
        match self {
            LocalWorkspaceSource::Host { root } => SourceView::Host(*root),
            LocalWorkspaceSource::Container { docker, container } => SourceView::Container(
                docker@,
                container@,
            ),
        }
    }
}

impl LocalWorkspaceSource {
    /// The initial root of the file tree: the host path, or `/` inside a
    /// container.
    pub fn root(&self) -> (r: PathBuf)
        ensures
            self@ matches SourceView::Host(root) ==> r == root,
            self@ is Container ==> r == path_from("/"@),
    {
        match self {
            LocalWorkspaceSource::Host { root } => root.clone(),
            LocalWorkspaceSource::Container { .. } => path_of("/"),
        }
    }

    /// Whether the files live in a container (no local git and the like).
    pub fn is_container(&self) -> (r: bool)
        ensures
            r == self@ is Container,
    {
        match self {
            LocalWorkspaceSource::Container { .. } => true,
            LocalWorkspaceSource::Host { .. } => false,
        }
    }
}

/// The last component of a program path: what follows the last `/` or `\`.
pub open spec fn file_name(program: Seq<char>) -> Seq<char>
    decreases program.len(),
{
    if program.len() == 0 {
        program
    } else if program.last() == '/' || program.last() == '\\' {
        Seq::empty()
    } else {
        file_name(program.drop_last()).push(program.last())
    }
}

/// ASCII case-insensitive equality.
pub open spec fn same_ignoring_case(a: Seq<char>, b: Seq<char>) -> bool {
    ascii_lower_seq(a) == ascii_lower_seq(b)
}

/// Whether a program is docker: by file name, `docker` or `docker.exe`.
pub open spec fn is_docker_name(program: Seq<char>) -> bool {
    same_ignoring_case(file_name(program), "docker"@) || same_ignoring_case(
        file_name(program),
        "docker.exe"@,
    )
}

/// Whether a program is the Navop docker provider.
pub open spec fn is_provider_name(program: Seq<char>) -> bool {
    same_ignoring_case(file_name(program), "docker-provider"@) || same_ignoring_case(
        file_name(program),
        "docker-provider.exe"@,
    )
}

/// Whether an `exec` option takes the next argument as its value: the long
/// options `--user`, `--workdir`, `--env`, `--env-file`, `--detach-keys`, and
/// short groups holding `u`, `w` or `e`.
pub open spec fn option_takes_value(arg: Seq<char>) -> bool {
    if arg.len() >= 2 && arg[0] == '-' && arg[1] == '-' {
        let long = arg.subrange(2, arg.len() as int);
        long == "user"@ || long == "workdir"@ || long == "env"@ || long == "env-file"@ || long
            == "detach-keys"@
    } else if arg.len() >= 1 && arg[0] == '-' {
        let short = arg.drop_first();
        has_char(short, 'u') || has_char(short, 'w') || has_char(short, 'e')
    } else {
        false
    }
}

/// Whether an argument is the subcommand that enters the container:
/// `exec`, or also `exec-bridge` for the provider.
pub open spec fn is_subcommand(arg: Seq<char>, provider: bool) -> bool {
    arg == "exec"@ || (provider && arg == "exec-bridge"@)
}

/// The index of the first subcommand at or after `i`.
pub open spec fn first_subcommand(args: Seq<Seq<char>>, provider: bool, i: int) -> Option<int>
    decreases args.len() - i,
{
    if i < 0 || i >= args.len() {
        None
    } else if is_subcommand(args[i], provider) {
        Some(i)
    } else {
        first_subcommand(args, provider, i + 1)
    }
}

/// The container named at or after `j`, skipping `exec` options and their
/// values; `--` makes the next argument the container whatever it is.
pub open spec fn container_from(args: Seq<Seq<char>>, j: int) -> Option<Seq<char>>
    decreases args.len() - j,
{
    if j < 0 || j >= args.len() {
        None
    } else if args[j] == "--"@ {
        if j + 1 < args.len() {
            Some(args[j + 1])
        } else {
            None
        }
    } else if args[j].len() > 0 && args[j][0] == '-' {
        if has_char(args[j], '=') || !option_takes_value(args[j]) {
            container_from(args, j + 1)
        } else if j + 1 < args.len() {
            container_from(args, j + 2)
        } else {
            None
        }
    } else {
        Some(args[j])
    }
}

/// The docker invocation and container of a session started as
/// `docker [global...] exec [options] <container> [command...]` (or through
/// the provider's `exec` or `exec-bridge`); `None` for any other session, or
/// when the container is blank or looks like an option.
pub open spec fn docker_exec_of(
    shell: Option<Seq<char>>,
    args: Seq<Seq<char>>,
    env: Seq<(Seq<char>, Seq<char>)>,
) -> Option<(DockerView, Seq<char>)> {
    match shell {
        None => None,
        Some(program) => {
            let provider = is_provider_name(program);
            if !provider && !is_docker_name(program) {
                None
            } else {
                match first_subcommand(args, provider, 0) {
                    None => None,
                    Some(i) => match container_from(args, i + 1) {
                        None => None,
                        Some(c) => if trim(c).len() == 0 || (c.len() > 0 && c[0] == '-') {
                            None
                        } else {
                            Some(
                                (
                                    DockerView {
                                        program,
                                        global_args: args.subrange(0, i),
                                        env,
                                    },
                                    c,
                                ),
                            )
                        },
                    },
                }
            }
        },
    }
}

/// A container found after `j` is one of the arguments after `j`.
proof fn lemma_container_is_an_argument(args: Seq<Seq<char>>, j: int)
    requires
        container_from(args, j) is Some,
    ensures
        exists|k: int| j <= k < args.len() && args[k] == container_from(args, j)->0,
    decreases args.len() - j,
{
    if args[j] == "--"@ {
        assert(args[j + 1] == container_from(args, j)->0);
    } else if args[j].len() > 0 && args[j][0] == '-' {
        if has_char(args[j], '=') || !option_takes_value(args[j]) {
            lemma_container_is_an_argument(args, j + 1);
        } else {
            lemma_container_is_an_argument(args, j + 2);
        }
    } else {
        assert(args[j] == container_from(args, j)->0);
    }
}

/// The container of a docker session is one of the session's arguments,
/// after the subcommand; it is not blank and does not look like an option;
/// and the global arguments are exactly those before the subcommand.
pub proof fn law_container_is_a_plain_argument(
    shell: Option<Seq<char>>,
    args: Seq<Seq<char>>,
    env: Seq<(Seq<char>, Seq<char>)>,
)
    requires
        docker_exec_of(shell, args, env) is Some,
    ensures
        ({
            let (d, c) = docker_exec_of(shell, args, env)->0;
            &&& trim(c).len() > 0
            &&& c.len() > 0 && c[0] != '-'
            &&& exists|i: int, k: int|
                0 <= i < k < args.len() && is_subcommand(args[i], is_provider_name(shell->0))
                    && d.global_args == args.subrange(0, i) && args[k] == c
        }),
{
    let program = shell->0;
    let provider = is_provider_name(program);
    let i = first_subcommand(args, provider, 0)->0;
    lemma_first_subcommand(args, provider, 0);
    lemma_container_is_an_argument(args, i + 1);
    let c = container_from(args, i + 1)->0;
    assert(trim(c).len() > 0);
    if c.len() == 0 {
        assert(trim(c) =~= Seq::<char>::empty()) by {
            reveal_with_fuel(crate::text::trim_start, 2);
            reveal_with_fuel(crate::text::trim_end, 2);
        }
    }
}

/// The first subcommand found from `i` is a subcommand at or after `i`.
proof fn lemma_first_subcommand(args: Seq<Seq<char>>, provider: bool, i: int)
    requires
        first_subcommand(args, provider, i) is Some,
    ensures
        i <= first_subcommand(args, provider, i)->0 < args.len(),
        is_subcommand(args[first_subcommand(args, provider, i)->0], provider),
    decreases args.len() - i,
{
    if !is_subcommand(args[i], provider) {
        lemma_first_subcommand(args, provider, i + 1);
    }
}

/// The docker session of a configuration, in terms of its fields.
pub open spec fn docker_exec_of_config(config: &LocalConfig) -> Option<(DockerView, Seq<char>)> {
    docker_exec_of(
        match config.shell {
            Some(s) => Some(s@),
            None => None,
        },
        string_views(config.args@),
        env_views(config.env@),
    )
}

/// The index just after the last `/` or `\` of a program path.
fn file_name_start(program: &Vec<char>) -> (r: usize)
    ensures
        r <= program@.len(),
        file_name(program@) == program@.subrange(r as int, program@.len() as int),
{
    let mut k: usize = program.len();
    let ghost p = program@;
    assert(p.subrange(p.len() as int, p.len() as int) =~= Seq::<char>::empty());
    proof {
        lemma_file_name_suffix(p, p.len() as int);
    }
    while k > 0 && program[k - 1] != '/' && program[k - 1] != '\\'
        invariant
            k <= p.len(),
            p == program@,
            file_name(p) == file_name(p.subrange(0, k as int)) + p.subrange(k as int, p.len() as int),
        decreases k,
    {
        let ghost pre = p.subrange(0, k as int);
        assert(pre.drop_last() =~= p.subrange(0, k - 1));
        assert(p.subrange(k - 1, p.len() as int) =~= seq![pre.last()] + p.subrange(k as int, p.len() as int));
        k = k - 1;
    }
    proof {
        let pre = p.subrange(0, k as int);
        if k > 0 {
            assert(pre.last() == p[k - 1]);
        }
        assert(file_name(pre) =~= Seq::<char>::empty());
        assert(file_name(p) =~= p.subrange(k as int, p.len() as int));
    }
    k
}

/// The file name of a prefix, followed by the rest, is the file name of a
/// whole path when no separator follows the prefix.
proof fn lemma_file_name_suffix(p: Seq<char>, k: int)
    requires
        0 <= k <= p.len(),
        k == p.len(),
    ensures
        file_name(p) == file_name(p.subrange(0, k)) + p.subrange(k, p.len() as int),
{
    assert(p.subrange(0, k) =~= p);
    assert(file_name(p) + Seq::<char>::empty() =~= file_name(p));
}

/// Whether a character sequence equals a text, ignoring ASCII case.
fn same_ignoring_case_as(name: &Vec<char>, text: &str) -> (r: bool)
    ensures
        r == same_ignoring_case(name@, text@),
{
    let a = lower_chars(name.as_slice());
    let t = chars_of(text);
    let b = lower_chars(t.as_slice());
    crate::text::chars_eq(a.as_slice(), b.as_slice())
}

/// Whether a program is docker, by file name.
pub fn is_docker_program(program: &str) -> (r: bool)
    ensures
        r == is_docker_name(program@),
{
    let chars = chars_of(program);
    let start = file_name_start(&chars);
    let name = crate::text::slice_range(chars.as_slice(), start, chars.len());
    same_ignoring_case_as(&name, "docker") || same_ignoring_case_as(&name, "docker.exe")
}

/// Whether a program is the Navop docker provider, by file name.
pub fn is_docker_provider_program(program: &str) -> (r: bool)
    ensures
        r == is_provider_name(program@),
{
    let chars = chars_of(program);
    let start = file_name_start(&chars);
    let name = crate::text::slice_range(chars.as_slice(), start, chars.len());
    same_ignoring_case_as(&name, "docker-provider") || same_ignoring_case_as(
        &name,
        "docker-provider.exe",
    )
}

/// A long option's name is the text after `--`.
proof fn lemma_long_name(arg: Seq<char>, name: Seq<char>, full: Seq<char>)
    requires
        arg.len() >= 2,
        arg[0] == '-',
        arg[1] == '-',
        full == seq!['-', '-'] + name,
    ensures
        (arg.subrange(2, arg.len() as int) == name) <==> (arg == full),
{
    if arg.subrange(2, arg.len() as int) == name {
        assert(arg =~= full);
    }
    if arg == full {
        assert(arg.subrange(2, arg.len() as int) =~= name);
    }
}

/// Exactly the listed `docker exec` options take the next argument as
/// their value: among long options `--user`, `--workdir`, `--env`,
/// `--env-file` and `--detach-keys`, and short option groups holding `u`,
/// `w` or `e`; no other argument does.
pub proof fn law_exec_options_that_take_a_value(arg: Seq<char>)
    ensures
        option_takes_value(arg) == (arg == "--user"@ || arg == "--workdir"@ || arg == "--env"@ || arg == "--env-file"@ || arg
            == "--detach-keys"@ || (arg.len() >= 1 && arg[0] == '-' && !(arg.len() >= 2 && arg[1] == '-')
            && exists|k: int| 1 <= k < arg.len() && (arg[k] == 'u' || arg[k] == 'w' || arg[k] == 'e'))),
{
    reveal_strlit("--user");
    reveal_strlit("--workdir");
    reveal_strlit("--env");
    reveal_strlit("--env-file");
    reveal_strlit("--detach-keys");
    reveal_strlit("user");
    reveal_strlit("workdir");
    reveal_strlit("env");
    reveal_strlit("env-file");
    reveal_strlit("detach-keys");
    if arg.len() >= 2 && arg[0] == '-' && arg[1] == '-' {
        assert("--user"@ =~= seq!['-', '-'] + "user"@);
        assert("--workdir"@ =~= seq!['-', '-'] + "workdir"@);
        assert("--env"@ =~= seq!['-', '-'] + "env"@);
        assert("--env-file"@ =~= seq!['-', '-'] + "env-file"@);
        assert("--detach-keys"@ =~= seq!['-', '-'] + "detach-keys"@);
        lemma_long_name(arg, "user"@, "--user"@);
        lemma_long_name(arg, "workdir"@, "--workdir"@);
        lemma_long_name(arg, "env"@, "--env"@);
        lemma_long_name(arg, "env-file"@, "--env-file"@);
        lemma_long_name(arg, "detach-keys"@, "--detach-keys"@);
    } else {
        assert(arg != "--user"@ && arg != "--workdir"@ && arg != "--env"@ && arg != "--env-file"@ && arg
            != "--detach-keys"@) by {
            if arg.len() >= 2 && arg[0] == '-' {
                assert(arg[1] != '-');
            }
        }
        if arg.len() >= 1 && arg[0] == '-' {
            let short = arg.drop_first();
            if has_char(short, 'u') || has_char(short, 'w') || has_char(short, 'e') {
                let i = choose|i: int| 0 <= i < short.len() && (short[i] == 'u' || short[i] == 'w' || short[i]
                    == 'e');
                assert(arg[i + 1] == short[i]);
            }
            if exists|k: int| 1 <= k < arg.len() && (arg[k] == 'u' || arg[k] == 'w' || arg[k] == 'e') {
                let k = choose|k: int| 1 <= k < arg.len() && (arg[k] == 'u' || arg[k] == 'w' || arg[k] == 'e');
                assert(short[k - 1] == arg[k]);
            }
        }
    }
}

/// Whether an `exec` option takes the next argument as its value.
pub fn exec_option_takes_value(arg: &str) -> (r: bool)
    ensures
        r == option_takes_value(arg@),
        r == (arg@ == "--user"@ || arg@ == "--workdir"@ || arg@ == "--env"@ || arg@ == "--env-file"@ || arg@
            == "--detach-keys"@ || (arg@.len() >= 1 && arg@[0] == '-' && !(arg@.len() >= 2 && arg@[1] == '-')
            && exists|k: int| 1 <= k < arg@.len() && (arg@[k] == 'u' || arg@[k] == 'w' || arg@[k] == 'e'))),
{
    proof {
        law_exec_options_that_take_a_value(arg@);
    }
    let chars = chars_of(arg);
    if chars.len() >= 2 && chars[0] == '-' && chars[1] == '-' {
        let long = crate::text::string_of(crate::text::slice_range(chars.as_slice(), 2, chars.len()).as_slice());
        text_eq(long.as_str(), "user") || text_eq(long.as_str(), "workdir") || text_eq(
            long.as_str(),
            "env",
        ) || text_eq(long.as_str(), "env-file") || text_eq(long.as_str(), "detach-keys")
    } else if chars.len() >= 1 && chars[0] == '-' {
        let short = crate::text::slice_range(chars.as_slice(), 1, chars.len());
        assert(short@ =~= arg@.drop_first());
        crate::text::contains_char(short.as_slice(), 'u') || crate::text::contains_char(
            short.as_slice(),
            'w',
        ) || crate::text::contains_char(short.as_slice(), 'e')
    } else {
        false
    }
}

/// Whether an argument is the subcommand that enters the container.
fn is_subcommand_arg(arg: &String, provider: bool) -> (r: bool)
    ensures
        r == is_subcommand(arg@, provider),
{
    text_eq(arg.as_str(), "exec") || (provider && text_eq(arg.as_str(), "exec-bridge"))
}

/// Finds the container argument at or after `start`.
fn find_container(args: &Vec<String>, start: usize) -> (r: Option<String>)
    ensures
        match container_from(string_views(args@), start as int) {
            Some(c) => r matches Some(x) && x@ == c,
            None => r is None,
        },
{
    let ghost views = string_views(args@);
    let mut j: usize = start;
    while j < args.len()
        invariant
            views == string_views(args@),
            container_from(views, j as int) == container_from(views, start as int),
        decreases args.len() - j,
    {
        let arg = &args[j];
        assert(views[j as int] == arg@);
        if text_eq(arg.as_str(), "--") {
            if j + 1 < args.len() {
                assert(views[j + 1] == args@[j + 1]@);
                return Some(copy_string(&args[j + 1]));
            } else {
                return None;
            }
        }
        let chars = chars_of(arg.as_str());
        if chars.len() > 0 && chars[0] == '-' {
            if crate::text::contains_char(chars.as_slice(), '=') || !exec_option_takes_value(
                arg.as_str(),
            ) {
                j = j + 1;
            } else if j + 1 < args.len() {
                j = j + 2;
            } else {
                return None;
            }
        } else {
            return Some(copy_string(arg));
        }
    }
    None
}

/// Parses `docker [global...] exec [options] <container> [command...]`, and
/// the provider's `docker-provider exec [-i] <container> <command...>` and
/// `docker-provider exec-bridge <container> [command...]`, which also point
/// into the container.  The container must be one non-blank argument that
/// is not an option, so that commands never go to the wrong target.
pub fn docker_exec_invocation(config: &LocalConfig) -> (r: Option<(DockerInvocation, String)>)
    ensures
        match docker_exec_of_config(config) {
            Some((d, c)) => r matches Some(x) && x.0@ == d && x.1@ == c,
            None => r is None,
        },
{
    let program = match &config.shell {
        Some(program) => program,
        None => {
            return None;
        },
    };
    let provider = is_docker_provider_program(program.as_str());
    if !provider && !is_docker_program(program.as_str()) {
        return None;
    }
    let ghost views = string_views(config.args@);
    let mut global_args: Vec<String> = Vec::new();
    let mut i: usize = 0;
    while i < config.args.len() && !is_subcommand_arg(&config.args[i], provider)
        invariant
            views == string_views(config.args@),
            i <= views.len(),
            first_subcommand(views, provider, i as int) == first_subcommand(views, provider, 0),
            string_views(global_args@) == views.subrange(0, i as int),
        decreases config.args.len() - i,
    {
        let ghost before = string_views(global_args@);
        assert(views[i as int] == config.args@[i as int]@);
        global_args.push(copy_string(&config.args[i]));
        assert(string_views(global_args@) =~= before.push(views[i as int]));
        assert(views.subrange(0, i + 1) =~= views.subrange(0, i as int).push(views[i as int]));
        i = i + 1;
    }
    if i >= config.args.len() {
        return None;
    }
    assert(views[i as int] == config.args@[i as int]@);
    let container = match find_container(&config.args, i + 1) {
        Some(container) => container,
        None => {
            return None;
        },
    };
    let chars = chars_of(container.as_str());
    let (a, b) = trim_bounds(chars.as_slice());
    if a == b || (chars.len() > 0 && chars[0] == '-') {
        return None;
    }
    Some(
        (
            DockerInvocation { program: copy_string(program), global_args, env: copy_env(&config.env) },
            container,
        ),
    )
}

/// A kind of session and how to find its file tree.
pub trait WorkspaceSourceResolver {
    /// The source of the session's file tree, or `None` when the session is
    /// not of this kind and the next resolver should be tried.
    fn resolve(&self, config: &LocalConfig) -> Option<LocalWorkspaceSource>;
}

/// `docker exec` sessions, and the provider's `exec` and `exec-bridge`.
pub struct DockerExecResolver;

/// WSL sessions (`wsl.exe -d <distribution>`).
pub struct WslResolver;

/// Local terminals: the fallback, which always applies when a working
/// directory can be found.
pub struct HostResolver;

impl WorkspaceSourceResolver for DockerExecResolver {
    fn resolve(&self, config: &LocalConfig) -> (r: Option<LocalWorkspaceSource>)
        ensures
            match docker_exec_of_config(config) {
                Some((d, c)) => r matches Some(s) && s@ == SourceView::Container(d, c),
                None => r is None,
            },
    {
        match docker_exec_invocation(config) {
            Some((docker, container)) => Some(LocalWorkspaceSource::Container { docker, container }),
            None => None,
        }
    }
}

impl WorkspaceSourceResolver for WslResolver {
    /// A WSL distribution's file system is reached through its Windows UNC
    /// root; this build does not resolve one, so WSL sessions fall through.
    fn resolve(&self, config: &LocalConfig) -> (r: Option<LocalWorkspaceSource>)
        ensures
            r is None,
    {
        None
    }
}

/// The working directory of a local terminal: the configured one, else the
/// home directory.
pub fn resolve_local_working_dir(working_dir: Option<PathBuf>) -> (r: Option<PathBuf>)
    ensures
        working_dir is Some ==> r == working_dir,
{
    match working_dir {
        Some(dir) => Some(dir),
        None => home_dir(),
    }
}

impl WorkspaceSourceResolver for HostResolver {
    fn resolve(&self, config: &LocalConfig) -> (r: Option<LocalWorkspaceSource>)
        ensures
            r matches Some(s) ==> s@ is Host,
            config.working_dir matches Some(dir) ==> r matches Some(s) && s@ == SourceView::Host(dir),
    {
        let dir = match &config.working_dir {
            Some(dir) => Some(dir.clone()),
            None => None,
        };
        match resolve_local_working_dir(dir) {
            Some(root) => Some(LocalWorkspaceSource::Host { root }),
            None => None,
        }
    }
}

/// One of the resolvers, in the order they are tried.
pub enum WorkspaceResolver {
    DockerExec(DockerExecResolver),
    Wsl(WslResolver),
    Host(HostResolver),
}

impl WorkspaceSourceResolver for WorkspaceResolver {
    fn resolve(&self, config: &LocalConfig) -> (r: Option<LocalWorkspaceSource>)
        ensures
            self is DockerExec ==> match docker_exec_of_config(config) {
                Some((d, c)) => r matches Some(s) && s@ == SourceView::Container(d, c),
                None => r is None,
            },
            self is Wsl ==> r is None,
            self is Host ==> (r matches Some(s) ==> s@ is Host) && (config.working_dir matches Some(
                dir,
            ) ==> r matches Some(s) && s@ == SourceView::Host(dir)),
    {
        match self {
            WorkspaceResolver::DockerExec(resolver) => resolver.resolve(config),
            WorkspaceResolver::Wsl(resolver) => resolver.resolve(config),
            WorkspaceResolver::Host(resolver) => resolver.resolve(config),
        }
    }
}

/// The resolvers in the order they are tried: container, WSL, then the
/// local host.
pub fn default_workspace_resolvers() -> (r: Vec<WorkspaceResolver>)
    ensures
        r@.len() == 3,
        r@[0] is DockerExec,
        r@[1] is Wsl,
        r@[2] is Host,
{
    vec![
        WorkspaceResolver::DockerExec(DockerExecResolver),
        WorkspaceResolver::Wsl(WslResolver),
        WorkspaceResolver::Host(HostResolver),
    ]
}

/// The file-tree source of a session: the first resolver that applies.  A
/// container session is browsed in its container; any other session on its
/// working directory, else on the home directory.
pub fn resolve_local_workspace_source(config: &LocalConfig) -> (r: Option<LocalWorkspaceSource>)
    ensures
        match docker_exec_of_config(config) {
            Some((d, c)) => r matches Some(s) && s@ == SourceView::Container(d, c),
            None => (r matches Some(s) ==> s@ is Host) && (config.working_dir matches Some(dir)
                ==> r matches Some(s) && s@ == SourceView::Host(dir)),
        },
{
    let resolvers = default_workspace_resolvers();
    let mut i: usize = 0;
    while i < resolvers.len()
        invariant
            resolvers@.len() == 3,
            resolvers@[0] is DockerExec,
            resolvers@[1] is Wsl,
            resolvers@[2] is Host,
            i <= 2,
            i > 0 ==> docker_exec_of_config(config) is None,
        decreases resolvers.len() - i,
    {
        match resolvers[i].resolve(config) {
            Some(source) => {
                return Some(source);
            },
            None => {},
        }
        if i == 2 {
            return None;
        }
        i = i + 1;
    }
    None
}

} // verus!
