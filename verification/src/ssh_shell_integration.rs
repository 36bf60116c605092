//! Runtime shell integration for SSH sessions: a one-line command typed into
//! the remote shell installs the prompt and command markers (OSC 133 and
//! OSC 1337) for the session only, and a small state machine hides the
//! echo of that command until the shell reports that it is ready.
use vstd::prelude::*;
use crate::text::{chars_of, owned};
use crate::text_build::push_str;

verus! {

/// The most output held back while the setup command echoes.
pub const MAX_SUPPRESSED_OUTPUT_BYTES: usize = 65536;

/// The marker the setup command prints once the shell is integrated:
/// `ESC ] 1337;ShellIntegrationReady=1 BEL`.
pub const SHELL_INTEGRATION_READY_MARKER: [u8; 31] = [
    0x1b, 0x5d, 0x31, 0x33, 0x33, 0x37, 0x3b, 0x53, 0x68, 0x65, 0x6c, 0x6c, 0x49, 0x6e, 0x74, 0x65,
    0x67, 0x72, 0x61, 0x74, 0x69, 0x6f, 0x6e, 0x52, 0x65, 0x61, 0x64, 0x79, 0x3d, 0x31, 0x07,
];

/// The prompt and command markers for bash and zsh, installed once per
/// shell and only in memory.
pub const SHELL_INTEGRATION_SCRIPT: &'static str = "if [ -z \"${_ONETCLI_SHELL_INTEGRATED:-}\" ]; then
    _ONETCLI_SHELL_INTEGRATED=1
    __onetcli_emit_osc() {
        printf '\\033]%s\\007' \"$1\"
    }
    if [ -n \"${ZSH_VERSION:-}\" ]; then
        __onetcli_precmd() {
            __onetcli_emit_osc '133;A'
        }
        __onetcli_preexec() {
            __onetcli_emit_osc \"1337;Command=$1\"
        }
        autoload -Uz add-zsh-hook
        add-zsh-hook precmd __onetcli_precmd
        add-zsh-hook preexec __onetcli_preexec
        PS1=\"${PS1}%{$(__onetcli_emit_osc '133;B')%}\"
    elif [ -n \"${BASH_VERSION:-}\" ]; then
        __onetcli_command_ready=1
        __onetcli_debug_trap() {
            if [ -n \"${__onetcli_command_ready:-}\" ]; then
                case \"$BASH_COMMAND\" in
                    __onetcli_*) ;;
                    *)
                        __onetcli_command_ready=
                        __onetcli_emit_osc \"1337;Command=$BASH_COMMAND\"
                        ;;
                esac
            fi
        }
        __onetcli_prompt_command() {
            __onetcli_emit_osc '133;A'
            __onetcli_command_ready=1
        }
        trap '__onetcli_debug_trap' DEBUG
        PROMPT_COMMAND=\"${PROMPT_COMMAND:+$PROMPT_COMMAND;}__onetcli_prompt_command\"
        PS1=\"${PS1}\\[$(__onetcli_emit_osc '133;B')\\]\"
    fi
fi";

/// What follows the script: bash forgets the setup command in its history,
/// then the shell prints the ready marker.
pub const READY_TAIL: &'static str = "
if [[ -n \"${BASH_VERSION:-}\" ]]; then
    __onetcli_setup_history=\"$(history 2>/dev/null | while read -r __onetcli_history_number __onetcli_history_rest; do case \"$__onetcli_history_rest\" in *__ONETCLI_RUNTIME_SETUP_1*) printf '%s ' \"${__onetcli_history_number%\\*}\";; esac; done)\"
    for __onetcli_history_number in $__onetcli_setup_history; do history -d \"$__onetcli_history_number\" 2>/dev/null; done
    unset __onetcli_setup_history __onetcli_history_number __onetcli_history_rest
fi
__onetcli_emit_osc '1337;ShellIntegrationReady=1'";

/// What the command types before the quoted body: a leading space keeps it
/// out of the history of shells that ignore such lines.
pub const COMMAND_PREFIX: &'static str = " _ONETCLI_RUNTIME_SETUP=1; : __ONETCLI_RUNTIME_SETUP_1; eval ";

/// The ready marker as bytes.
#[verifier::opaque]
pub open spec fn ready_marker() -> Seq<u8> {
    SHELL_INTEGRATION_READY_MARKER@
}

/// How one character is written inside `$'...'`.
pub open spec fn escape_char(c: char) -> Seq<char> {
    if c == '\\' {
        seq!['\\', '\\']
    } else if c == '\'' {
        seq!['\\', '\'']
    } else if c == '\n' {
        seq!['\\', 'n']
    } else if c == '\r' {
        seq!['\\', 'r']
    } else if c == '\t' {
        seq!['\\', 't']
    } else {
        seq![c]
    }
}

/// The characters of a text, each escaped.
pub open spec fn escaped(s: Seq<char>) -> Seq<char>
    decreases s.len(),
{
    if s.len() == 0 {
        Seq::empty()
    } else {
        escaped(s.drop_last()) + escape_char(s.last())
    }
}

/// A text as an ANSI-C quoted shell word, `$'...'`.
pub open spec fn ansi_c_quoted(s: Seq<char>) -> Seq<char> {
    seq!['$', '\''] + escaped(s) + seq!['\'']
}

/// The body evaluated by the setup command: the script, then the tail.
pub open spec fn integration_body() -> Seq<char> {
    SHELL_INTEGRATION_SCRIPT@ + READY_TAIL@
}

/// The setup command as typed: the prefix, the quoted body and a carriage
/// return.
pub open spec fn command_text() -> Seq<char> {
    COMMAND_PREFIX@ + ansi_c_quoted(integration_body()) + seq!['\r']
}

/// Quotes a text as an ANSI-C shell word.
pub fn ansi_c_quote(input: &str) -> (r: String)
    ensures
        r@ == ansi_c_quoted(input@),
{
    let chars = chars_of(input);
    let mut quoted: Vec<char> = Vec::new();
    quoted.push('$');
    quoted.push('\'');
    let mut i: usize = 0;
    assert(chars@.subrange(0, 0) =~= Seq::<char>::empty());
    assert(quoted@ =~= seq!['$', '\''] + escaped(Seq::<char>::empty()));
    while i < chars.len()
        invariant
            i <= chars@.len(),
            chars@ == input@,
            quoted@ == seq!['$', '\''] + escaped(chars@.subrange(0, i as int)),
        decreases chars.len() - i,
    {
        let c = chars[i];
        let ghost before = quoted@;
        if c == '\\' {
            quoted.push('\\');
            quoted.push('\\');
        } else if c == '\'' {
            quoted.push('\\');
            quoted.push('\'');
        } else if c == '\n' {
            quoted.push('\\');
            quoted.push('n');
        } else if c == '\r' {
            quoted.push('\\');
            quoted.push('r');
        } else if c == '\t' {
            quoted.push('\\');
            quoted.push('t');
        } else {
            quoted.push(c);
        }
        assert(quoted@ =~= before + escape_char(c));
        assert(chars@.subrange(0, i + 1).drop_last() =~= chars@.subrange(0, i as int));
        i = i + 1;
    }
    quoted.push('\'');
    assert(chars@.subrange(0, chars@.len() as int) =~= chars@);
    crate::text::string_of(quoted.as_slice())
}

/// The body evaluated by the setup command.
pub fn runtime_shell_integration_body() -> (r: String)
    ensures
        r@ == integration_body(),
{
    let mut body = owned(SHELL_INTEGRATION_SCRIPT);
    body.append(READY_TAIL);
    body
}

/// The setup command, as the bytes sent to the shell.
pub fn runtime_shell_integration_command() -> (r: Vec<u8>)
    ensures
        r@ == vstd::utf8::encode_utf8(command_text()),
{
    let body = runtime_shell_integration_body();
    let quoted = ansi_c_quote(body.as_str());
    let mut text: Vec<char> = Vec::new();
    push_str(&mut text, COMMAND_PREFIX);
    push_str(&mut text, quoted.as_str());
    text.push('\r');
    assert(text@ =~= command_text());
    let command = crate::text::string_of(text.as_slice());
    vstd::slice::slice_to_vec(command.as_str().as_bytes())
}

/// What an observation of the remote shell says about its integration.
#[derive(Clone, Copy, Debug, PartialEq, Eq, Structural)]
pub enum ShellIntegrationReady {
    /// Nothing new about the integration.
    Unchanged,
    Integrated,
    Plain,
}

/// What the terminal shows of a chunk of remote output.
#[derive(Debug, PartialEq, Eq)]
pub enum FilteredShellOutput {
    /// Held back: it is the echo of the setup command.
    Suppressed,
    Forward { data: Vec<u8>, ready: ShellIntegrationReady },
}

/// The mathematical value of a filtered chunk.
pub enum FilteredView {
    Suppressed,
    Forward { data: Seq<u8>, ready: ShellIntegrationReady },
}

/// The view of a filtered chunk.
pub open spec fn filtered_view(o: FilteredShellOutput) -> FilteredView {
    match o {
        FilteredShellOutput::Suppressed => FilteredView::Suppressed,
        FilteredShellOutput::Forward { data, ready } => FilteredView::Forward { data: data@, ready },
    }
}

/// The phases of the runtime integration, as values.
pub enum IntegrationPhase {
    /// Not requested: everything passes through.
    Disabled,
    /// Waiting for the first output of a logged-in shell.
    WaitingForFirstOutput,
    /// The setup command was sent; its echo is held back until the marker.
    Injecting(Seq<u8>),
    /// The marker came; waiting for the first integrated prompt.
    AwaitingPrompt,
    Integrated,
    /// The marker never came; the next output releases the plain shell.
    PlainAwaitingOutput,
    Plain,
}

enum Phase {
    Disabled,
    WaitingForFirstOutput,
    Injecting { suppressed: Vec<u8> },
    AwaitingPrompt,
    Integrated,
    PlainAwaitingOutput,
    Plain,
}

/// The view of a phase.
pub closed spec fn phase_view(p: Phase) -> IntegrationPhase {
    match p {
        Phase::Disabled => IntegrationPhase::Disabled,
        Phase::WaitingForFirstOutput => IntegrationPhase::WaitingForFirstOutput,
        Phase::Injecting { suppressed } => IntegrationPhase::Injecting(suppressed@),
        Phase::AwaitingPrompt => IntegrationPhase::AwaitingPrompt,
        Phase::Integrated => IntegrationPhase::Integrated,
        Phase::PlainAwaitingOutput => IntegrationPhase::PlainAwaitingOutput,
        Phase::Plain => IntegrationPhase::Plain,
    }
}

/// Whether the user's keystrokes reach the shell in a phase; in the others
/// they are held until the handshake ends.
pub open spec fn accepts_input(p: IntegrationPhase) -> bool {
    match p {
        IntegrationPhase::Disabled | IntegrationPhase::Integrated | IntegrationPhase::Plain => true,
        _ => false,
    }
}

/// The first place where `needle` occurs in `haystack`.
pub open spec fn occurs_at(haystack: Seq<u8>, needle: Seq<u8>, p: int) -> bool {
    0 <= p && p + needle.len() <= haystack.len() && haystack.subrange(p, p + needle.len()) == needle
}

/// The first occurrence of `needle` in `haystack`, if any.
#[verifier::opaque]
pub open spec fn first_occurrence(haystack: Seq<u8>, needle: Seq<u8>) -> Option<int> {
    if exists|p: int| occurs_at(haystack, needle, p) {
        Some(
            choose|p: int|
                occurs_at(haystack, needle, p) && forall|q: int|
                    0 <= q < p ==> !occurs_at(haystack, needle, q),
        )
    } else {
        None
    }
}

/// The held-back output after a chunk: the newest bytes, at most the limit.
pub open spec fn kept_output(held: Seq<u8>, data: Seq<u8>) -> Seq<u8> {
    let joined = held + data;
    if joined.len() > MAX_SUPPRESSED_OUTPUT_BYTES {
        joined.subrange(joined.len() - MAX_SUPPRESSED_OUTPUT_BYTES, joined.len() as int)
    } else {
        joined
    }
}

/// Filtering a chunk of output.  While injecting, the chunk joins the held
/// back output; once the ready marker appears, what follows it is shown and
/// the prompt is awaited.  After a timeout the next chunk is shown and
/// reports the plain shell.  In every other phase the chunk passes through.
pub open spec fn filter_step(p: IntegrationPhase, data: Seq<u8>) -> (IntegrationPhase, FilteredView) {
    match p {
        IntegrationPhase::Injecting(held) => {
            let kept = kept_output(held, data);
            match first_occurrence(kept, ready_marker()) {
                None => (IntegrationPhase::Injecting(kept), FilteredView::Suppressed),
                Some(at) => (
                    IntegrationPhase::AwaitingPrompt,
                    FilteredView::Forward {
                        data: kept.subrange(at + ready_marker().len(), kept.len() as int),
                        ready: ShellIntegrationReady::Unchanged,
                    },
                ),
            }
        },
        IntegrationPhase::PlainAwaitingOutput => (
            IntegrationPhase::Plain,
            FilteredView::Forward { data, ready: ShellIntegrationReady::Plain },
        ),
        _ => (p, FilteredView::Forward { data, ready: ShellIntegrationReady::Unchanged }),
    }
}

/// Sending the setup command starts the injection.
pub open spec fn begin_step(p: IntegrationPhase) -> IntegrationPhase {
    if p is WaitingForFirstOutput {
        IntegrationPhase::Injecting(Seq::empty())
    } else {
        p
    }
}

/// A shell already integrated by its own configuration needs no setup.
pub open spec fn existing_ready_step(p: IntegrationPhase) -> IntegrationPhase {
    if p is WaitingForFirstOutput {
        IntegrationPhase::Integrated
    } else {
        p
    }
}

/// The start of a command line (OSC 133;B) proves the integration.
pub open spec fn input_start_step(p: IntegrationPhase) -> IntegrationPhase {
    if p is WaitingForFirstOutput || p is AwaitingPrompt {
        IntegrationPhase::Integrated
    } else {
        p
    }
}

/// A timeout during injection gives up on the marker.
pub open spec fn timeout_step(p: IntegrationPhase) -> IntegrationPhase {
    if p is Injecting {
        IntegrationPhase::PlainAwaitingOutput
    } else {
        p
    }
}

/// The watchdog: a handshake phase that holds input becomes the plain shell.
pub open spec fn release_step(p: IntegrationPhase) -> IntegrationPhase {
    if accepts_input(p) {
        p
    } else {
        IntegrationPhase::Plain
    }
}

/// The name of a phase, for logs.
pub open spec fn phase_text(p: IntegrationPhase) -> Seq<char> {
    match p {
        IntegrationPhase::Disabled => "disabled"@,
        IntegrationPhase::WaitingForFirstOutput => "waiting-for-first-output"@,
        IntegrationPhase::Injecting(_) => "injecting"@,
        IntegrationPhase::AwaitingPrompt => "awaiting-prompt"@,
        IntegrationPhase::Integrated => "integrated"@,
        IntegrationPhase::PlainAwaitingOutput => "plain-awaiting-output"@,
        IntegrationPhase::Plain => "plain"@,
    }
}

/// Quoting leaves no line break: `ansi_c_quote` writes newlines and
/// carriage returns as escapes, so the quoted word is one line.
pub proof fn law_quoted_text_is_one_line(s: Seq<char>)
    ensures
        forall|i: int|
            0 <= i < ansi_c_quoted(s).len() ==> #[trigger] ansi_c_quoted(s)[i] != '\n'
                && ansi_c_quoted(s)[i] != '\r',
{
    lemma_escaped_has_no_line_break(s);
    let q = ansi_c_quoted(s);
    let e = escaped(s);
    assert forall|i: int| 0 <= i < q.len() implies #[trigger] q[i] != '\n' && q[i] != '\r' by {
        if 2 <= i < 2 + e.len() {
            assert(q[i] == e[i - 2]);
        }
    }
}

/// Escaping leaves no line break.
proof fn lemma_escaped_has_no_line_break(s: Seq<char>)
    ensures
        forall|i: int|
            0 <= i < escaped(s).len() ==> #[trigger] escaped(s)[i] != '\n' && escaped(s)[i] != '\r',
    decreases s.len(),
{
    if s.len() > 0 {
        lemma_escaped_has_no_line_break(s.drop_last());
        let before = escaped(s.drop_last());
        let e = escaped(s);
        assert forall|i: int| 0 <= i < e.len() implies #[trigger] e[i] != '\n' && e[i] != '\r' by {
            if i < before.len() {
                assert(e[i] == before[i]);
            }
        }
    }
}

/// The setup command is a single line typed after a space, ended by the
/// carriage return that runs it.
pub proof fn law_setup_command_is_one_line()
    ensures
        command_text()[0] == ' ',
        command_text().last() == '\r',
        forall|i: int|
            0 <= i < command_text().len() - 1 ==> #[trigger] command_text()[i] != '\n'
                && command_text()[i] != '\r',
{
    reveal_strlit(" _ONETCLI_RUNTIME_SETUP=1; : __ONETCLI_RUNTIME_SETUP_1; eval ");
    let prefix = COMMAND_PREFIX@;
    let quoted = ansi_c_quoted(integration_body());
    let c = command_text();
    law_quoted_text_is_one_line(integration_body());
    assert forall|i: int| 0 <= i < c.len() - 1 implies #[trigger] c[i] != '\n' && c[i] != '\r' by {
        if i < prefix.len() {
            assert(c[i] == prefix[i]);
        } else {
            assert(c[i] == quoted[i - prefix.len()]);
        }
    }
}

/// A session that takes input keeps taking it: from a phase that accepts
/// input, no event changes the phase.
pub proof fn law_accepting_phases_are_kept(p: IntegrationPhase, data: Seq<u8>)
    requires
        accepts_input(p),
    ensures
        begin_step(p) == p,
        existing_ready_step(p) == p,
        input_start_step(p) == p,
        timeout_step(p) == p,
        release_step(p) == p,
        filter_step(p, data).0 == p,
{
}

/// Outside the handshake output passes through untouched.
pub proof fn law_output_passes_through_outside_the_handshake(p: IntegrationPhase, data: Seq<u8>)
    requires
        !(p is Injecting),
        !(p is PlainAwaitingOutput),
    ensures
        filter_step(p, data) == (p, FilteredView::Forward { data, ready: ShellIntegrationReady::Unchanged }),
{
}

/// The output held back while injecting never exceeds the limit, and it is
/// always the newest part of what arrived.
pub proof fn law_held_output_is_bounded(held: Seq<u8>, data: Seq<u8>)
    ensures
        kept_output(held, data).len() <= MAX_SUPPRESSED_OUTPUT_BYTES,
        kept_output(held, data) == (held + data).subrange(
            (held + data).len() - kept_output(held, data).len(),
            (held + data).len() as int,
        ),
{
    assert((held + data).subrange(0, (held + data).len() as int) =~= held + data);
}

/// The runtime integration of one SSH session.
pub struct RuntimeShellIntegration {
    phase: Phase,
    command: Vec<u8>,
}

impl View for RuntimeShellIntegration {
    type V = IntegrationPhase;

    closed spec fn view(&self) -> IntegrationPhase {
        phase_view(self.phase)
    }
}

impl RuntimeShellIntegration {
    /// The command is the setup command, and held-back output stays within
    /// the limit.
    #[verifier::type_invariant]
    closed spec fn inv(self) -> bool {
        &&& self.command@ == vstd::utf8::encode_utf8(command_text())
        &&& self.phase matches Phase::Injecting { suppressed } ==> suppressed@.len()
            <= MAX_SUPPRESSED_OUTPUT_BYTES
    }

    /// The integration of a new session: waiting for the shell when it was
    /// requested, else disabled.
    pub fn new(requested: bool) -> (r: Self)
        ensures
            r@ == (if requested {
                IntegrationPhase::WaitingForFirstOutput
            } else {
                IntegrationPhase::Disabled
            }),
    {
        let phase = if requested {
            Phase::WaitingForFirstOutput
        } else {
            Phase::Disabled
        };
        RuntimeShellIntegration { phase, command: runtime_shell_integration_command() }
    }

    /// The setup command to type into the shell.
    pub fn injection_command(&self) -> (r: &[u8])
        ensures
            r@ == vstd::utf8::encode_utf8(command_text()),
    {
        proof {
            use_type_invariant(self);
        }
        self.command.as_slice()
    }

    /// Whether to send the setup command now: on the first output of a
    /// logged-in shell, outside an expect round.
    pub fn should_inject(&self, data: &[u8], login_complete: bool, expect_responded: bool) -> (r: bool)
        ensures
            r == (data@.len() > 0 && login_complete && !expect_responded
                && self@ is WaitingForFirstOutput),
    {
        data.len() > 0 && login_complete && !expect_responded && match self.phase {
            Phase::WaitingForFirstOutput => true,
            _ => false,
        }
    }

    /// Notes that the setup command was sent.
    pub fn begin_injection(&mut self)
        ensures
            final(self)@ == begin_step(old(self)@),
    {
        proof {
            use_type_invariant(&*self);
        }
        if let Phase::WaitingForFirstOutput = self.phase {
            self.phase = Phase::Injecting { suppressed: Vec::new() };
        }
    }

    /// Notes that the shell is integrated by its own configuration.
    pub fn mark_existing_ready(&mut self)
        ensures
            final(self)@ == existing_ready_step(old(self)@),
    {
        proof {
            use_type_invariant(&*self);
        }
        if let Phase::WaitingForFirstOutput = self.phase {
            self.phase = Phase::Integrated;
        }
    }

    /// Whether the setup command's echo is being held back.
    pub fn is_injecting(&self) -> (r: bool)
        ensures
            r == self@ is Injecting,
    {
        match self.phase {
            Phase::Injecting { .. } => true,
            _ => false,
        }
    }

    /// Whether the session is known to be integrated, by the setup command
    /// or by the shell's own configuration.
    pub fn is_integrated(&self) -> (r: bool)
        ensures
            r == self@ is Integrated,
    {
        match self.phase {
            Phase::Integrated => true,
            _ => false,
        }
    }

    /// Filters a chunk of remote output.
    pub fn filter_output(&mut self, data: Vec<u8>) -> (r: FilteredShellOutput)
        ensures
            (final(self)@, filtered_view(r)) == filter_step(old(self)@, data@),
    {
        proof {
            use_type_invariant(&*self);
        }
        let mut current = Phase::Disabled;
        std::mem::swap(&mut current, &mut self.phase);
        match current {
            Phase::Injecting { suppressed } => {
                let (next, shown) = filter_injecting(suppressed, data);
                self.phase = next;
                shown
            },
            Phase::PlainAwaitingOutput => {
                self.phase = Phase::Plain;
                FilteredShellOutput::Forward { data, ready: ShellIntegrationReady::Plain }
            },
            other => {
                self.phase = other;
                FilteredShellOutput::Forward { data, ready: ShellIntegrationReady::Unchanged }
            },
        }
    }

    /// Notes the start of a command line (OSC 133;B).
    pub fn on_input_start(&mut self)
        ensures
            final(self)@ == input_start_step(old(self)@),
    {
        proof {
            use_type_invariant(&*self);
        }
        match self.phase {
            Phase::WaitingForFirstOutput | Phase::AwaitingPrompt => {
                self.phase = Phase::Integrated;
            },
            _ => {},
        }
    }

    /// Gives up waiting for the ready marker; returns whether the phase
    /// changed.
    pub fn on_timeout(&mut self) -> (r: bool)
        ensures
            final(self)@ == timeout_step(old(self)@),
            r == old(self)@ is Injecting,
    {
        proof {
            use_type_invariant(&*self);
        }
        if let Phase::Injecting { .. } = self.phase {
            self.phase = Phase::PlainAwaitingOutput;
            return true;
        }
        false
    }

    /// Whether the user's keystrokes go to the shell now.
    pub fn accepts_terminal_input(&self) -> (r: bool)
        ensures
            r == accepts_input(self@),
    {
        match self.phase {
            Phase::WaitingForFirstOutput | Phase::Injecting { .. } | Phase::AwaitingPrompt
            | Phase::PlainAwaitingOutput => false,
            _ => true,
        }
    }

    /// The name of the current phase, to tell in logs why input is held.
    pub fn phase_name(&self) -> (r: &'static str)
        ensures
            r@ == phase_text(self@),
    {
        match self.phase {
            Phase::Disabled => "disabled",
            Phase::WaitingForFirstOutput => "waiting-for-first-output",
            Phase::Injecting { .. } => "injecting",
            Phase::AwaitingPrompt => "awaiting-prompt",
            Phase::Integrated => "integrated",
            Phase::PlainAwaitingOutput => "plain-awaiting-output",
            Phase::Plain => "plain",
        }
    }

    /// The watchdog's last resort: a handshake phase that would hold the
    /// user's input forever becomes the plain shell.  Returns whether the
    /// phase changed; a phase that already takes input is left alone.
    pub fn force_release_input(&mut self) -> (r: bool)
        ensures
            final(self)@ == release_step(old(self)@),
            r == !accepts_input(old(self)@),
            accepts_input(final(self)@),
    {
        proof {
            use_type_invariant(&*self);
        }
        match self.phase {
            Phase::WaitingForFirstOutput | Phase::Injecting { .. } | Phase::AwaitingPrompt
            | Phase::PlainAwaitingOutput => {
                self.phase = Phase::Plain;
                true
            },
            _ => false,
        }
    }
}

/// Joins a chunk to the held-back output, keeping the newest bytes up to
/// the limit.
fn hold_output(held: Vec<u8>, data: Vec<u8>) -> (r: Vec<u8>)
    ensures
        r@ == kept_output(held@, data@),
        r@.len() <= MAX_SUPPRESSED_OUTPUT_BYTES,
{
    let mut held = held;
    let mut data = data;
    held.append(&mut data);
    if held.len() > MAX_SUPPRESSED_OUTPUT_BYTES {
        let retain_from = held.len() - MAX_SUPPRESSED_OUTPUT_BYTES;
        held = held.split_off(retain_from);
    }
    held
}

/// Filters a chunk while the setup command's echo is held back.
fn filter_injecting(suppressed: Vec<u8>, data: Vec<u8>) -> (r: (Phase, FilteredShellOutput))
    requires
        suppressed@.len() <= MAX_SUPPRESSED_OUTPUT_BYTES,
    ensures
        (phase_view(r.0), filtered_view(r.1)) == filter_step(
            IntegrationPhase::Injecting(suppressed@),
            data@,
        ),
        r.0 matches Phase::Injecting { suppressed } ==> suppressed@.len() <= MAX_SUPPRESSED_OUTPUT_BYTES,
{
    let mut suppressed = hold_output(suppressed, data);
    let marker: &[u8] = SHELL_INTEGRATION_READY_MARKER.as_slice();
    assert(marker@ == ready_marker()) by {
        reveal(ready_marker);
    }
    match find_subslice(suppressed.as_slice(), marker) {
        None => (Phase::Injecting { suppressed }, FilteredShellOutput::Suppressed),
        Some(marker_start) => {
            let suffix = suppressed.split_off(marker_start + marker.len());
            (
                Phase::AwaitingPrompt,
                FilteredShellOutput::Forward { data: suffix, ready: ShellIntegrationReady::Unchanged },
            )
        },
    }
}

/// Whether `needle` occurs in `haystack` at `p`.
fn occurs_here(haystack: &[u8], needle: &[u8], p: usize) -> (r: bool)
    requires
        p + needle@.len() <= haystack@.len(),
    ensures
        r == occurs_at(haystack@, needle@, p as int),
{
    let mut k: usize = 0;
    while k < needle.len()
        invariant
            p + needle@.len() <= haystack.len(),
            k <= needle@.len(),
            forall|j: int| 0 <= j < k ==> haystack@[p + j] == needle@[j],
        decreases needle.len() - k,
    {
        if haystack[p + k] != needle[k] {
            assert(haystack@.subrange(p as int, p + needle@.len())[k as int] != needle@[k as int]);
            return false;
        }
        k = k + 1;
    }
    assert(haystack@.subrange(p as int, p + needle@.len()) =~= needle@);
    true
}

/// The first place where a non-empty `needle` occurs in `haystack`.
pub fn find_subslice(haystack: &[u8], needle: &[u8]) -> (r: Option<usize>)
    requires
        needle@.len() > 0,
    ensures
        r matches Some(p) ==> first_occurrence(haystack@, needle@) == Some(p as int) && occurs_at(
            haystack@,
            needle@,
            p as int,
        ),
        r is None ==> first_occurrence(haystack@, needle@) is None,
{
    reveal(first_occurrence);
    if needle.len() > haystack.len() {
        assert forall|p: int| !occurs_at(haystack@, needle@, p) by {}
        return None;
    }
    let last = haystack.len() - needle.len();
    let mut p: usize = 0;
    while p <= last
        invariant
            last + needle@.len() == haystack.len(),
            needle@.len() > 0,
            p <= last + 1,
            forall|q: int| 0 <= q < p ==> !occurs_at(haystack@, needle@, q),
        decreases last + 1 - p,
    {
        if occurs_here(haystack, needle, p) {
            proof {
                reveal(first_occurrence);
                let h = haystack@;
                let n = needle@;
                assert(occurs_at(h, n, p as int) && forall|q: int| 0 <= q < p ==> !occurs_at(h, n, q));
                let c = choose|c: int| occurs_at(h, n, c) && forall|q: int| 0 <= q < c ==> !occurs_at(h, n, q);
                if c < p {
                    assert(!occurs_at(h, n, c));
                } else if c > p {
                    assert(!occurs_at(h, n, p as int));
                }
            }
            return Some(p);
        }
        p = p + 1;
    }
    assert forall|q: int| !occurs_at(haystack@, needle@, q) by {
        if 0 <= q < p {
        }
    }
    reveal(first_occurrence);
    None
}

/// A session without integration stays so: no event moves it out of the
/// disabled phase, and its output passes through untouched.
pub proof fn law_disabled_sessions_stay_disabled(data: Seq<u8>)
    ensures
        filter_step(IntegrationPhase::Disabled, data) == (
            IntegrationPhase::Disabled,
            FilteredView::Forward { data, ready: ShellIntegrationReady::Unchanged },
        ),
        begin_step(IntegrationPhase::Disabled) == IntegrationPhase::Disabled,
        existing_ready_step(IntegrationPhase::Disabled) == IntegrationPhase::Disabled,
        input_start_step(IntegrationPhase::Disabled) == IntegrationPhase::Disabled,
        timeout_step(IntegrationPhase::Disabled) == IntegrationPhase::Disabled,
        release_step(IntegrationPhase::Disabled) == IntegrationPhase::Disabled,
{
}

/// Phase names tell the phases apart: a session is injecting exactly when
/// its phase is named `injecting`, and integrated exactly when it is named
/// `integrated`; every phase has one of the seven names.
pub proof fn law_phase_names_tell_the_phase(p: IntegrationPhase)
    ensures
        (phase_text(p) == "injecting"@) <==> p is Injecting,
        (phase_text(p) == "integrated"@) <==> p is Integrated,
        (phase_text(p) == "disabled"@) <==> p is Disabled,
        phase_text(p) == "disabled"@ || phase_text(p) == "waiting-for-first-output"@ || phase_text(p)
            == "injecting"@ || phase_text(p) == "awaiting-prompt"@ || phase_text(p) == "integrated"@
            || phase_text(p) == "plain-awaiting-output"@ || phase_text(p) == "plain"@,
{
    reveal_strlit("disabled");
    reveal_strlit("waiting-for-first-output");
    reveal_strlit("injecting");
    reveal_strlit("awaiting-prompt");
    reveal_strlit("integrated");
    reveal_strlit("plain-awaiting-output");
    reveal_strlit("plain");
    assert("disabled"@.len() == 8 && "waiting-for-first-output"@.len() == 24 && "injecting"@.len() == 9
        && "awaiting-prompt"@.len() == 15 && "integrated"@.len() == 10 && "plain-awaiting-output"@.len()
        == 21 && "plain"@.len() == 5);
}

/// Holding back output chunk by chunk keeps what holding it back at once
/// would: after any chunks since the injection began, the held output is
/// the newest bytes of all of them, at most the limit.
pub proof fn law_held_output_is_the_newest_bytes(held: Seq<u8>, first: Seq<u8>, second: Seq<u8>)
    ensures
        kept_output(kept_output(held, first), second) == kept_output(held, first + second),
{
    let m = MAX_SUPPRESSED_OUTPUT_BYTES as int;
    let all = held + first + second;
    let once = kept_output(held, first);
    let joined = held + first;
    assert(held + (first + second) =~= all);
    if joined.len() > m {
        assert(once =~= joined.subrange(joined.len() - m, joined.len() as int));
        let two = once + second;
        assert(two =~= all.subrange(joined.len() - m, all.len() as int));
        if two.len() > m {
            assert(two.subrange(two.len() - m, two.len() as int) =~= all.subrange(all.len() - m, all.len() as int));
        }
    } else {
        assert(once == joined);
        assert(once + second =~= all);
    }
}

/// Output filtered chunk by chunk during the injection acts as the chunks
/// joined: while a chunk leaves the marker unfound, filtering the next one
/// gives what filtering both at once gives.  So, from the start of the
/// injection, the marker is searched in the newest 64 KiB of all output
/// since, and only what follows it is shown.
pub proof fn law_chunks_filter_as_one(held: Seq<u8>, first: Seq<u8>, second: Seq<u8>)
    requires
        filter_step(IntegrationPhase::Injecting(held), first).1 is Suppressed,
    ensures
        filter_step(filter_step(IntegrationPhase::Injecting(held), first).0, second) == filter_step(
            IntegrationPhase::Injecting(held),
            first + second,
        ),
{
    law_held_output_is_the_newest_bytes(held, first, second);
}

} // verus!
