//! Pipe-mode agent runs: the command that launches the agent and the
//! structured result read from its output.

use vstd::prelude::*;

use crate::json::{
    json_get_i64, json_get_str, json_get_str_items, json_i64_field, json_is_valid, json_parses,
    json_str_field, json_str_items_field,
};
use crate::text::{
    opt_str_view, split_ranges, split_seq, str_to_chars, strs_view, trim_bounds, trim_seq,
};

verus! {

broadcast use vstd::string::group_string_axioms;

/// Guest path the agent binary or script is copied to.
pub const AGENT_BINARY_CONTAINER_PATH: &'static str = "/tmp/blink_agent";

/// Outcome of an agent run.
#[derive(Clone, Debug, PartialEq, Eq)]
pub struct AgentResult {
    pub stdout: String,
    pub stderr: String,
    pub exit_code: i32,
    pub memory_keys: Option<Vec<String>>,
}

/// An agent result, as values.
pub struct AgentResultView {
    pub stdout: Seq<char>,
    pub stderr: Seq<char>,
    pub exit_code: i32,
    pub memory_keys: Option<Seq<Seq<char>>>,
}

impl View for AgentResult {
    type V = AgentResultView;

    open spec fn view(&self) -> AgentResultView {
        AgentResultView {
            stdout: self.stdout@,
            stderr: self.stderr@,
            exit_code: self.exit_code,
            memory_keys: match &self.memory_keys {
                Some(keys) => Some(strs_view(keys@)),
                None => None,
            },
        }
    }
}

/// The view of an optional agent result.
pub open spec fn opt_result_view(r: Option<AgentResult>) -> Option<AgentResultView> {
    match r {
        Some(a) => Some(a@),
        None => None,
    }
}

/// The strings among `items`, in order.
pub open spec fn keep_strings(items: Seq<Option<Seq<char>>>) -> Seq<Seq<char>>
    decreases items.len(),
{
    if items.len() == 0 {
        Seq::empty()
    } else {
        let init = keep_strings(items.drop_last());
        match items.last() {
            Some(s) => init.push(s),
            None => init,
        }
    }
}

/// The agent result given what a JSON document holds under `event`,
/// `stdout`, `stderr`, `exit_code` and `memory_keys`: the event must be
/// `"execution_result"`; missing strings read as empty, a missing exit code
/// as `1`, and non-string memory keys are skipped.
pub open spec fn agent_result_of_fields(
    event: Option<Seq<char>>,
    stdout: Option<Seq<char>>,
    stderr: Option<Seq<char>>,
    exit_code: Option<i64>,
    memory_keys: Option<Seq<Option<Seq<char>>>>,
) -> Option<AgentResultView> {
    if event != Some("execution_result"@) {
        None
    } else {
        Some(
            AgentResultView {
                stdout: match stdout {
                    Some(s) => s,
                    None => Seq::empty(),
                },
                stderr: match stderr {
                    Some(s) => s,
                    None => Seq::empty(),
                },
                exit_code: match exit_code {
                    Some(n) => n as i32,
                    None => 1,
                },
                memory_keys: match memory_keys {
                    Some(items) => Some(keep_strings(items)),
                    None => None,
                },
            },
        )
    }
}

/// The agent result a JSON document describes.
pub open spec fn agent_result_of_json(text: Seq<char>) -> Option<AgentResultView> {
    agent_result_of_fields(
        json_str_field(text, "event"@),
        json_str_field(text, "stdout"@),
        json_str_field(text, "stderr"@),
        json_i64_field(text, "exit_code"@),
        json_str_items_field(text, "memory_keys"@),
    )
}

/// The views of optional strings, if there are any.
pub open spec fn opt_items_view(items: Option<Vec<Option<String>>>) -> Option<Seq<Option<Seq<char>>>> {
    match items {
        Some(v) => Some(v@.map_values(|o: Option<String>| opt_str_view(o))),
        None => None,
    }
}

/// Scan lines from the last to the first for a JSON object line that
/// describes an agent result.
pub open spec fn scan_result_lines(lines: Seq<Seq<char>>) -> Option<AgentResultView>
    decreases lines.len(),
{
    if lines.len() == 0 {
        None
    } else {
        let line = trim_seq(lines.last());
        if line.len() > 0 && line[0] == '{' && json_is_valid(line) && agent_result_of_json(
            line,
        ) is Some {
            agent_result_of_json(line)
        } else {
            scan_result_lines(lines.drop_last())
        }
    }
}

/// The result an agent reported on stdout: the whole (trimmed) output if it
/// is one JSON document, else the last line holding an `execution_result`
/// object.
pub open spec fn execution_payload_of(stdout: Seq<char>) -> Option<AgentResultView> {
    let t = trim_seq(stdout);
    if t.len() == 0 {
        None
    } else if json_is_valid(t) {
        agent_result_of_json(t)
    } else {
        scan_result_lines(split_seq(t, '\n'))
    }
}

/// Build an agent result from what a JSON document holds.
pub fn agent_result_from_fields(
    event: Option<String>,
    stdout: Option<String>,
    stderr: Option<String>,
    exit_code: Option<i64>,
    memory_keys: Option<Vec<Option<String>>>,
) -> (r: Option<AgentResult>)
    ensures
        opt_result_view(r) == agent_result_of_fields(
            opt_str_view(event),
            opt_str_view(stdout),
            opt_str_view(stderr),
            exit_code,
            opt_items_view(memory_keys),
        ),
{
    let expected = String::from_str("execution_result");
    let is_result = match &event {
        Some(e) => *e == expected,
        None => false,
    };
    if !is_result {
        return None;
    }
    let stdout = match stdout {
        Some(s) => s,
        None => String::new(),
    };
    let stderr = match stderr {
        Some(s) => s,
        None => String::new(),
    };
    let exit_code: i32 = match exit_code {
        Some(n) => n as i32,
        None => 1,
    };
    let memory_keys = match memory_keys {
        Some(items) => {
            let ghost iv = items@.map_values(|o: Option<String>| opt_str_view(o));
            let mut keys: Vec<String> = Vec::new();
            let mut i: usize = 0;
            while i < items.len()
                invariant
                    i <= items@.len(),
                    iv == items@.map_values(|o: Option<String>| opt_str_view(o)),
                    strs_view(keys@) == keep_strings(iv.take(i as int)),
                decreases items@.len() - i,
            {
                proof {
                    assert(iv.take(i + 1).drop_last() =~= iv.take(i as int));
                    assert(iv.take(i + 1).last() == opt_str_view(items@[i as int]));
                }
                match &items[i] {
                    Some(k) => {
                        let ghost before = keys@;
                        keys.push(k.clone());
                        assert(strs_view(keys@) =~= strs_view(before).push(k@));
                    },
                    None => {},
                }
                i = i + 1;
            }
            assert(iv.take(items@.len() as int) =~= iv);
            Some(keys)
        },
        None => None,
    };
    Some(AgentResult { stdout, stderr, exit_code, memory_keys })
}

/// Read an agent result from a JSON document.
pub fn agent_result_from_json(text: &str) -> (r: Option<AgentResult>)
    ensures
        opt_result_view(r) == agent_result_of_json(text@),
{
    let event = json_get_str(text, "event");
    let stdout = json_get_str(text, "stdout");
    let stderr = json_get_str(text, "stderr");
    let exit_code = json_get_i64(text, "exit_code");
    let memory_keys = json_get_str_items(text, "memory_keys");
    agent_result_from_fields(event, stdout, stderr, exit_code, memory_keys)
}

/// Read the result an agent reported on stdout, if it reported one.
pub fn parse_execution_payload(stdout: &str) -> (r: Option<AgentResult>)
    ensures
        opt_result_view(r) == execution_payload_of(stdout@),
{
    let chars = str_to_chars(stdout);
    let (lo, hi) = trim_bounds(&chars, 0, chars.len());
    proof {
        assert(chars@.subrange(0, chars@.len() as int) =~= chars@);
    }
    if lo == hi {
        return None;
    }
    let trimmed = stdout.substring_char(lo, hi).to_owned();
    let ghost t = trimmed@;
    if json_parses(trimmed.as_str()) {
        return agent_result_from_json(trimmed.as_str());
    }
    let ranges = split_ranges(&chars, lo, hi, '\n');
    let ghost lines = split_seq(t, '\n');
    let mut k = ranges.len();
    proof {
        assert(lines.take(ranges@.len() as int) =~= lines);
        assert(t == trim_seq(stdout@));
    }
    while k > 0
        invariant
            k <= ranges@.len(),
            ranges@.len() == lines.len(),
            lines == split_seq(chars@.subrange(lo as int, hi as int), '\n'),
            lines == split_seq(t, '\n'),
            t == trim_seq(stdout@),
            t.len() > 0,
            !json_is_valid(t),
            lo <= hi <= chars@.len(),
            chars@ == stdout@,
            forall|i: int|
                0 <= i < ranges@.len() ==> lo <= (#[trigger] ranges@[i]).0 <= ranges@[i].1 <= hi
                    && chars@.subrange(ranges@[i].0 as int, ranges@[i].1 as int) == lines[i],
            scan_result_lines(lines) == scan_result_lines(lines.take(k as int)),
        decreases k,
    {
        let ghost sub = lines.take(k as int);
        k = k - 1;
        let (a, b) = ranges[k];
        let (la, lb) = trim_bounds(&chars, a, b);
        proof {
            assert(sub.drop_last() =~= lines.take(k as int));
            assert(sub.last() == lines[k as int]);
        }
        let ghost tl = trim_seq(lines[k as int]);
        proof {
            assert(chars@.subrange(la as int, lb as int) == tl);
        }
        if la < lb && chars[la] == '{' {
            let line = stdout.substring_char(la, lb).to_owned();
            proof {
                assert(line@ == tl);
                assert(tl[0] == chars@[la as int]);
            }
            if json_parses(line.as_str()) {
                let found = agent_result_from_json(line.as_str());
                if found.is_some() {
                    proof {
                        assert(t == trim_seq(stdout@));
                        assert(scan_result_lines(sub) == agent_result_of_json(tl));
                        assert(execution_payload_of(stdout@) == scan_result_lines(lines));
                    }
                    return found;
                }
            }
        }
        proof {
            assert(scan_result_lines(sub) == scan_result_lines(lines.take(k as int)));
        }
    }
    None
}

/// The shell command that marks the copied agent executable and runs it.
pub open spec fn agent_launch_command_spec() -> Seq<char> {
    "chmod +x "@ + AGENT_BINARY_CONTAINER_PATH@ + " && exec "@ + AGENT_BINARY_CONTAINER_PATH@
}

/// `chmod +x /tmp/blink_agent && exec /tmp/blink_agent`
pub fn agent_launch_command() -> (r: String)
    ensures
        r@ == agent_launch_command_spec(),
{
    let mut cmd = String::from_str("chmod +x ");
    cmd.append(AGENT_BINARY_CONTAINER_PATH);
    cmd.append(" && exec ");
    cmd.append(AGENT_BINARY_CONTAINER_PATH);
    cmd
}

/// Why an agent run produced no result.
#[derive(Clone, Debug, PartialEq, Eq)]
pub enum AgentRunError {
    /// The process did not complete normally; the runtime's message.
    ProcessFailed(String),
}

/// The result of a finished agent process: a runtime error message fails
/// the run; otherwise the result the agent reported on stdout, or else the
/// raw output and exit code.
pub open spec fn agent_run_outcome(
    stdout: Seq<char>,
    stderr: Seq<char>,
    exit_code: i32,
    error_message: Option<Seq<char>>,
) -> Result<AgentResultView, Seq<char>> {
    match error_message {
        Some(m) => Err(m),
        None => match execution_payload_of(stdout) {
            Some(parsed) => Ok(parsed),
            None => Ok(
                AgentResultView { stdout, stderr, exit_code, memory_keys: None },
            ),
        },
    }
}

/// Turn the collected output and exit status of an agent process into its
/// result.
pub fn finish_agent_run(
    stdout: String,
    stderr: String,
    exit_code: i32,
    error_message: Option<String>,
) -> (r: Result<AgentResult, AgentRunError>)
    ensures
        match r {
            Ok(a) => agent_run_outcome(stdout@, stderr@, exit_code, opt_str_view(error_message))
                == Ok::<AgentResultView, Seq<char>>(a@),
            Err(AgentRunError::ProcessFailed(m)) => agent_run_outcome(
                stdout@,
                stderr@,
                exit_code,
                opt_str_view(error_message),
            ) == Err::<AgentResultView, Seq<char>>(m@),
        },
{
    if let Some(message) = error_message {
        return Err(AgentRunError::ProcessFailed(message));
    }
    if let Some(parsed) = parse_execution_payload(stdout.as_str()) {
        return Ok(parsed);
    }
    Ok(AgentResult { stdout, stderr, exit_code, memory_keys: None })
}

/// When the trimmed output is one JSON document, however many lines it
/// spans, the payload is the result that document describes; empty output
/// has none.
pub proof fn lemma_whole_document_payload(stdout: Seq<char>)
    ensures
        trim_seq(stdout).len() > 0 && json_is_valid(trim_seq(stdout)) ==> execution_payload_of(stdout)
            == agent_result_of_json(trim_seq(stdout)),
        trim_seq(stdout).len() == 0 ==> execution_payload_of(stdout) is None,
{
}

} // verus!
