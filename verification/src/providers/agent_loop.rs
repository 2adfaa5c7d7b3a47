//! The decisions of the tool-calling loop.
//!
//! The loop itself (sending a turn, dispatching tools, timing them) runs
//! outside the library; it asks these functions what to do next and how
//! to record what happened.

use vstd::prelude::*;

use crate::audit::{AgentDiagnostics, ToolCallRecord};
use crate::hashing::{hash_hex, hex_of, sha256};
use crate::models::tokens::TokenUsage;
use crate::text::{chars_of, decimal, push_chars, push_decimal, push_str, string_of, string_views};

verus! {

/// How a loop run ended.
#[derive(Debug, Clone)]
pub struct LoopOutcome {
    /// The text of the last assistant turn that had text; empty when the
    /// loop ended through the terminal tool.
    pub final_text: String,
    /// Token usage summed over every turn.
    pub usage: TokenUsage,
    /// Completion calls made.
    pub turns: u32,
    /// The terminal tool that ended the loop, if one did.
    pub terminated_via_tool: Option<String>,
    /// A correction message was sent.
    pub self_repair_attempted: bool,
    /// Tool calls in invocation order.
    pub tool_calls: Vec<ToolCallRecord>,
}

impl LoopOutcome {
    /// The audit view of this outcome.
    pub fn to_diagnostics(&self) -> (r: AgentDiagnostics)
        ensures
            r.turns == self.turns,
            r.self_repair_attempted == self.self_repair_attempted,
            r.tool_calls@ == self.tool_calls@,
            match (r.terminated_via_tool, self.terminated_via_tool) {
                (Some(a), Some(b)) => a@ == b@,
                (None, None) => true,
                _ => false,
            },
    {
        let terminated_via_tool = match &self.terminated_via_tool {
            Some(t) => Some(t.clone()),
            None => None,
        };
        AgentDiagnostics {
            turns: self.turns,
            terminated_via_tool,
            self_repair_attempted: self.self_repair_attempted,
            tool_calls: crate::audit::clone_tool_calls(&self.tool_calls),
        }
    }
}

/// The settings of one loop run.
#[derive(Debug, Clone)]
pub struct LoopConfig {
    /// System preamble.
    pub preamble: String,
    /// Output tokens per turn.
    pub max_tokens: u64,
    /// Completion calls at most; at least one.
    pub max_turns: u32,
    /// A tool whose call ends the loop.
    pub terminal_tool: Option<String>,
    /// A correction sent once when the model answers in text instead of
    /// calling the terminal tool.
    pub self_repair_message: Option<String>,
}

impl LoopConfig {
    /// A configuration with no terminal tool and no correction; a turn
    /// budget of zero is raised to one.
    pub fn new(preamble: String, max_tokens: u64, max_turns: u32) -> (r: Self)
        ensures
            r.preamble@ == preamble@,
            r.max_tokens == max_tokens,
            r.max_turns == if max_turns < 1 { 1 } else { max_turns },
            r.terminal_tool is None,
            r.self_repair_message is None,
    {
        LoopConfig {
            preamble,
            max_tokens,
            max_turns: if max_turns < 1 { 1 } else { max_turns },
            terminal_tool: None,
            self_repair_message: None,
        }
    }

    /// The same configuration, ending on a call of `name`.
    pub fn with_terminal_tool(self, name: String) -> (r: Self)
        ensures
            r.preamble@ == self.preamble@,
            r.max_tokens == self.max_tokens,
            r.max_turns == self.max_turns,
            r.terminal_tool matches Some(t) && t@ == name@,
            r.self_repair_message == self.self_repair_message,
    {
        LoopConfig { terminal_tool: Some(name), ..self }
    }

    /// The same configuration, sending `message` once as a correction.
    pub fn with_self_repair(self, message: String) -> (r: Self)
        ensures
            r.preamble@ == self.preamble@,
            r.max_tokens == self.max_tokens,
            r.max_turns == self.max_turns,
            r.terminal_tool == self.terminal_tool,
            r.self_repair_message matches Some(m) && m@ == message@,
    {
        LoopConfig { self_repair_message: Some(message), ..self }
    }
}

/// Whether another completion call may be made after `turns` calls.
pub fn may_call(config: &LoopConfig, turns: u32) -> (r: bool)
    ensures
        r == (turns < config.max_turns),
{
    turns < config.max_turns
}

/// What to do when a turn answered in text without calling a tool.
#[derive(Debug, Clone)]
pub enum TextReplyAction {
    /// Send this correction and take another turn.
    Repair(String),
    /// End the loop with the text.
    Finish,
}

/// After a text-only turn: correct once, when a terminal tool and a
/// correction are configured, none was sent yet and turns remain;
/// otherwise finish.
pub fn after_text_reply(config: &LoopConfig, turns: u32, repair_attempted: bool) -> (r: TextReplyAction)
    ensures
        match r {
            TextReplyAction::Repair(m) => {
                &&& !repair_attempted
                &&& config.terminal_tool is Some
                &&& config.self_repair_message matches Some(c) && c@ == m@
                &&& turns < config.max_turns
            },
            TextReplyAction::Finish => !(!repair_attempted && config.terminal_tool is Some
                && config.self_repair_message is Some && turns < config.max_turns),
        },
{
    if !repair_attempted && config.terminal_tool.is_some() && turns < config.max_turns {
        match &config.self_repair_message {
            Some(m) => TextReplyAction::Repair(m.clone()),
            None => TextReplyAction::Finish,
        }
    } else {
        TextReplyAction::Finish
    }
}

/// Whether a call of `name` ends the loop.
pub fn is_terminal_call(config: &LoopConfig, name: &str) -> (r: bool)
    ensures
        r == (config.terminal_tool matches Some(t) && t@ == name@),
{
    match &config.terminal_tool {
        Some(t) => crate::text::eq_str(&chars_of(t.as_str()), name),
        None => false,
    }
}

/// The text of a tool result as the model sees it: the output, or
/// `error: ` and the failure.
pub open spec fn result_text(outcome: Result<Seq<char>, Seq<char>>) -> Seq<char> {
    match outcome {
        Ok(t) => t,
        Err(e) => "error: "@ + e,
    }
}

/// `r` with each newline replaced by a space.
pub open spec fn newlines_as_spaces(r: Seq<char>) -> Seq<char> {
    Seq::new(r.len(), |i: int| if r[i] == '\n' { ' ' } else { r[i] })
}

/// A tool result for the audit: under 100 bytes, the text with newlines
/// as spaces, cut to 80 characters; otherwise its size in bytes.
pub open spec fn result_summary(r: Seq<char>, nbytes: nat) -> Seq<char> {
    if nbytes < 100 {
        let flat = newlines_as_spaces(r);
        if flat.len() <= 80 {
            flat
        } else {
            flat.take(80)
        }
    } else {
        decimal(nbytes) + " bytes"@
    }
}

/// A short summary of a tool result for the audit log.
pub fn short_result_summary(result: &str) -> (r: String)
    ensures
        r@ == result_summary(result@, utf8(result@).len()),
{
    let bytes = result.as_bytes().len();
    if bytes < 100 {
        let cs = chars_of(result);
        let mut out: Vec<char> = Vec::new();
        let mut i: usize = 0;
        while i < cs.len() && i < 80
            invariant
                cs@ == result@,
                i <= cs@.len(),
                i <= 80,
                out@ == newlines_as_spaces(result@).take(i as int),
            decreases cs@.len() - i,
        {
            let c = cs[i];
            out.push(if c == '\n' { ' ' } else { c });
            i = i + 1;
            proof {
                assert(out@ =~= newlines_as_spaces(result@).take(i as int));
            }
        }
        proof {
            let flat = newlines_as_spaces(result@);
            if flat.len() <= 80 {
                assert(flat.take(i as int) =~= flat);
            }
        }
        string_of(&out)
    } else {
        let mut d: Vec<char> = Vec::new();
        push_decimal(&mut d, bytes as u64);
        let mut out = String::new();
        push_chars(&mut out, &d);
        push_str(&mut out, " bytes");
        proof {
            assert(d@ =~= decimal(bytes as nat));
        }
        out
    }
}

/// The entries of a JSON object text, each key with its value when the
/// value is a string; `None` when the text is not a JSON object.
pub uninterp spec fn json_object_entries(text: Seq<char>) -> Option<Seq<(Seq<char>, Option<Seq<char>>)>>;

/// The view of parsed object entries.
pub open spec fn entries_view(es: Seq<(String, Option<String>)>) -> Seq<(Seq<char>, Option<Seq<char>>)> {
    es.map_values(
        |e: (String, Option<String>)|
            (
                e.0@,
                match e.1 {
                    Some(v) => Some(v@),
                    None => None,
                },
            ),
    )
}

/// `serde_json::from_str::<serde_json::Value>`, read as an object: its
/// entries with string values kept. The contract names the result.
#[verifier::external_body]
fn parse_object_entries(text: &str) -> (r: Option<Vec<(String, Option<String>)>>)
    ensures
        match r {
            Some(es) => json_object_entries(text@) == Some(entries_view(es@)),
            None => json_object_entries(text@) is None,
        },
{
    match serde_json::from_str::<serde_json::Value>(text) {
        Ok(serde_json::Value::Object(obj)) => Some(
            obj.into_iter().map(|(k, v)| (k, v.as_str().map(|s| s.to_string()))).collect(),
        ),
        _ => None,
    }
}

/// The UTF-8 encoding of a character sequence.
pub open spec fn utf8(s: Seq<char>) -> Seq<u8> {
    vstd::utf8::encode_utf8(s)
}

/// An argument summary: `key=value` for an object of one string entry;
/// otherwise the text, cut to 77 bytes and `...` when over 80 bytes.
/// The result is given by its UTF-8 bytes.
pub open spec fn args_summary_bytes(args: Seq<char>, entries: Option<Seq<(Seq<char>, Option<Seq<char>>)>>) -> Seq<u8> {
    match entries {
        Some(es) => if es.len() == 1 && es[0].1 is Some {
            utf8(es[0].0 + "="@ + es[0].1->0)
        } else {
            plain_args_bytes(args)
        },
        None => plain_args_bytes(args),
    }
}

/// The parsed entries are one key with a string value.
pub open spec fn single_string_entry(entries: Option<Seq<(Seq<char>, Option<Seq<char>>)>>) -> bool {
    entries matches Some(es) && es.len() == 1 && es[0].1 is Some
}

/// Cutting the text at 77 bytes would split a character: the summary of
/// such arguments (over 80 bytes, not one string entry) cannot be made.
pub open spec fn summary_cut_splits(args: Seq<char>, entries: Option<Seq<(Seq<char>, Option<Seq<char>>)>>) -> bool {
    utf8(args).len() > 80 && !single_string_entry(entries) && !vstd::utf8::is_char_boundary(utf8(args), 77)
}

/// The view of optional parsed entries.
pub open spec fn opt_entries_view(entries: Option<Vec<(String, Option<String>)>>) -> Option<Seq<(Seq<char>, Option<Seq<char>>)>> {
    match entries {
        Some(es) => Some(entries_view(es@)),
        None => None,
    }
}

/// The entries of a tool call's JSON arguments (see
/// [`json_object_entries`]).
pub fn object_entries(args_json: &str) -> (r: Option<Vec<(String, Option<String>)>>)
    ensures
        opt_entries_view(r) == json_object_entries(args_json@),
{
    parse_object_entries(args_json)
}

pub open spec fn plain_args_bytes(args: Seq<char>) -> Seq<u8> {
    let b = utf8(args);
    if b.len() > 80 {
        b.take(77) + utf8("..."@)
    } else {
        b
    }
}

/// UTF-8 encoding distributes over concatenation.
pub proof fn lemma_utf8_concat(a: Seq<char>, b: Seq<char>)
    ensures
        utf8(a + b) == utf8(a) + utf8(b),
    decreases a.len(),
{
    if a.len() == 0 {
        assert(a + b =~= b);
    } else {
        assert((a + b).drop_first() =~= a.drop_first() + b);
        lemma_utf8_concat(a.drop_first(), b);
    }
}

/// The argument summary of `args` given its parsed object entries.
pub fn args_summary_from(args: &str, entries: Option<Vec<(String, Option<String>)>>) -> (r: String)
    requires
        !summary_cut_splits(args@, opt_entries_view(entries)),
    ensures
        utf8(r@) == args_summary_bytes(args@, opt_entries_view(entries)),
{
    match entries {
        Some(es) => {
            if es.len() == 1 {
                match &es[0].1 {
                    Some(v) => {
                        let mut out = es[0].0.clone();
                        push_str(&mut out, "=");
                        push_str(&mut out, v.as_str());
                        return out;
                    },
                    None => {},
                }
            }
        },
        None => {},
    }
    plain_args_summary(args)
}

fn plain_args_summary(args: &str) -> (r: String)
    requires
        utf8(args@).len() > 80 ==> vstd::utf8::is_char_boundary(utf8(args@), 77),
    ensures
        utf8(r@) == plain_args_bytes(args@),
{
    if args.as_bytes().len() > 80 {
        let (head, _) = args.split_at(77);
        let mut out = head.to_owned();
        push_str(&mut out, "...");
        proof {
            lemma_utf8_concat(head@, "..."@);
            assert(utf8(head@) =~= utf8(args@).take(77));
            assert(out@ == head@ + "..."@);
            assert(utf8(out@) == utf8(args@).take(77) + utf8("..."@));
            assert(utf8(args@).len() > 80);
        }
        out
    } else {
        args.to_owned()
    }
}

/// A short summary of a tool call's JSON arguments for the audit log.
pub fn short_args_summary(args_json: &str) -> (r: String)
    requires
        !summary_cut_splits(args_json@, json_object_entries(args_json@)),
    ensures
        utf8(r@) == args_summary_bytes(args_json@, json_object_entries(args_json@)),
{
    let entries = parse_object_entries(args_json);
    args_summary_from(args_json, entries)
}

/// The argument summary, or `None` for arguments whose summary cannot be
/// made (see [`summary_cut_splits`]).
pub fn checked_args_summary(args_json: &str) -> (r: Option<String>)
    ensures
        match r {
            Some(s) => !summary_cut_splits(args_json@, json_object_entries(args_json@)) && utf8(s@)
                == args_summary_bytes(args_json@, json_object_entries(args_json@)),
            None => summary_cut_splits(args_json@, json_object_entries(args_json@)),
        },
{
    let entries = parse_object_entries(args_json);
    let single = match &entries {
        Some(es) => es.len() == 1 && es[0].1.is_some(),
        None => false,
    };
    if args_json.as_bytes().len() > 80 && !single && !args_json.is_char_boundary(77) {
        return None;
    }
    Some(short_args_summary(args_json))
}

/// The audit record of one tool call, and the text handed back to the
/// model.
pub fn tool_call_record(
    name: &str,
    args_json: &str,
    entries: Option<Vec<(String, Option<String>)>>,
    duration_ms: u64,
    outcome: Result<String, String>,
) -> (r: (ToolCallRecord, String))
    requires
        !summary_cut_splits(args_json@, opt_entries_view(entries)),
    ensures
        ({
            let text = result_text(
                match outcome {
                    Ok(t) => Ok(t@),
                    Err(e) => Err(e@),
                },
            );
            let (rec, t) = r;
            &&& t@ == text
            &&& rec.name@ == name@
            &&& rec.args_hash@ == hex_of(sha256(utf8(args_json@)))
            &&& utf8(rec.args_summary@) == args_summary_bytes(args_json@, opt_entries_view(entries))
            &&& rec.duration_ms == duration_ms
            &&& rec.failed == outcome is Err
            &&& match rec.result_hash {
                Some(h) => outcome is Ok && h@ == hex_of(sha256(utf8(text))),
                None => outcome is Err,
            }
            &&& rec.result_summary@ == result_summary(text, utf8(text).len())
        }),
{
    let failed = outcome.is_err();
    let text = match outcome {
        Ok(t) => t,
        Err(e) => {
            let mut m = String::from_str("error: ");
            push_str(&mut m, e.as_str());
            m
        },
    };
    let result_hash = if failed { None } else { Some(hash_hex(text.as_str())) };
    let rec = ToolCallRecord {
        name: name.to_owned(),
        args_hash: hash_hex(args_json),
        args_summary: args_summary_from(args_json, entries),
        duration_ms,
        result_hash,
        result_summary: short_result_summary(text.as_str()),
        failed,
    };
    (rec, text)
}

/// The texts of a turn joined by newlines.
pub open spec fn joined_lines(ts: Seq<Seq<char>>) -> Seq<char>
    decreases ts.len(),
{
    if ts.len() == 0 {
        seq![]
    } else if ts.len() == 1 {
        ts[0]
    } else {
        joined_lines(ts.drop_last()) + "\n"@ + ts.last()
    }
}

/// The pieces from the first non-empty one on.
pub open spec fn from_first_text(ps: Seq<Seq<char>>) -> Seq<Seq<char>>
    decreases ps.len(),
{
    if ps.len() > 0 && ps[0].len() == 0 {
        from_first_text(ps.drop_first())
    } else {
        ps
    }
}

/// The text of one turn: its text pieces from the first non-empty one
/// on, joined by newlines.
pub open spec fn turn_text(pieces: Seq<Seq<char>>) -> Seq<char> {
    joined_lines(from_first_text(pieces))
}

/// The text of the last turn that has any.
pub open spec fn last_turn_text(turns: Seq<Seq<Seq<char>>>) -> Seq<char>
    decreases turns.len(),
{
    if turns.len() == 0 {
        seq![]
    } else if turn_text(turns.last()).len() > 0 {
        turn_text(turns.last())
    } else {
        last_turn_text(turns.drop_last())
    }
}

proof fn lemma_from_first_text_head(ps: Seq<Seq<char>>)
    ensures
        from_first_text(ps).len() > 0 ==> from_first_text(ps)[0].len() > 0,
    decreases ps.len(),
{
    if ps.len() > 0 && ps[0].len() == 0 {
        lemma_from_first_text_head(ps.drop_first());
    }
}

proof fn lemma_from_first_text_push(ps: Seq<Seq<char>>, x: Seq<char>)
    ensures
        from_first_text(ps.push(x)) == if from_first_text(ps).len() == 0 {
            if x.len() == 0 { Seq::<Seq<char>>::empty() } else { seq![x] }
        } else {
            from_first_text(ps).push(x)
        },
    decreases ps.len(),
{
    assert(from_first_text(Seq::<Seq<char>>::empty()) == Seq::<Seq<char>>::empty());
    if ps.len() == 0 {
        assert(ps.push(x).drop_first() =~= Seq::<Seq<char>>::empty());
        assert(seq![x] =~= ps.push(x));
    } else {
        assert(ps.push(x)[0] == ps[0]);
        if ps[0].len() == 0 {
            assert(ps.push(x).drop_first() =~= ps.drop_first().push(x));
            lemma_from_first_text_push(ps.drop_first(), x);
        }
    }
}

proof fn lemma_joined_lines_nonempty(ls: Seq<Seq<char>>)
    requires
        ls.len() > 0,
        ls[0].len() > 0,
    ensures
        joined_lines(ls).len() > 0,
    decreases ls.len(),
{
    if ls.len() > 1 {
        lemma_joined_lines_nonempty(ls.drop_last());
    }
}

/// How the text of a turn grows by one piece.
proof fn lemma_turn_text_step(ps: Seq<Seq<char>>, k: int)
    requires
        0 <= k < ps.len(),
    ensures
        turn_text(ps.take(k + 1)) == if turn_text(ps.take(k)).len() == 0 {
            ps[k]
        } else {
            turn_text(ps.take(k)) + "\n"@ + ps[k]
        },
{
    assert(ps.take(k + 1) =~= ps.take(k).push(ps[k]));
    lemma_from_first_text_push(ps.take(k), ps[k]);
    let f = from_first_text(ps.take(k));
    lemma_from_first_text_head(ps.take(k));
    if f.len() > 0 {
        lemma_joined_lines_nonempty(f);
        assert(f.push(ps[k]).drop_last() =~= f);
    } else if ps[k].len() == 0 {
        assert(joined_lines(Seq::<Seq<char>>::empty()) =~= ps[k]);
    }
}

/// The text of a turn, given its text pieces.
fn turn_text_exec(pieces: &Vec<String>) -> (r: String)
    ensures
        r@ == turn_text(string_views(pieces@)),
{
    let ghost ps = string_views(pieces@);
    let mut out = String::new();
    let mut k: usize = 0;
    proof {
        assert(ps.take(0) =~= Seq::<Seq<char>>::empty());
    }
    while k < pieces.len()
        invariant
            k <= pieces@.len(),
            ps == string_views(pieces@),
            out@ == turn_text(ps.take(k as int)),
        decreases pieces@.len() - k,
    {
        proof {
            lemma_turn_text_step(ps, k as int);
        }
        if !out.as_str().is_empty() {
            push_str(&mut out, "\n");
        }
        push_str(&mut out, pieces[k].as_str());
        k = k + 1;
    }
    proof {
        assert(ps.take(pieces@.len() as int) =~= ps);
    }
    out
}

/// The views of the text pieces of each turn.
pub open spec fn turns_view(turns: Seq<Vec<String>>) -> Seq<Seq<Seq<char>>> {
    turns.map_values(|t: Vec<String>| string_views(t@))
}

/// The text of the last assistant turn that has any, given the text
/// pieces of each turn in order; empty when none has.
pub fn last_assistant_text(turns: &Vec<Vec<String>>) -> (r: String)
    ensures
        r@ == last_turn_text(turns_view(turns@)),
{
    let ghost all = turns_view(turns@);
    let mut i: usize = turns.len();
    proof {
        assert(all.take(i as int) =~= all);
    }
    while i > 0
        invariant
            i <= turns@.len(),
            all == turns_view(turns@),
            last_turn_text(all) == last_turn_text(all.take(i as int)),
        decreases i,
    {
        proof {
            assert(all.take(i as int).drop_last() =~= all.take(i - 1));
            assert(all.take(i as int).last() == string_views(turns@[i - 1]@));
        }
        let t = turn_text_exec(&turns[i - 1]);
        if !t.as_str().is_empty() {
            return t;
        }
        i = i - 1;
    }
    String::new()
}

/// The state of one loop run: turns taken, whether the correction was
/// sent, the tool calls made, the text pieces of each assistant turn,
/// the tokens used and the terminal tool whose call ended the run.
#[derive(Debug)]
pub struct AgentRun {
    pub turns: u32,
    pub self_repair_attempted: bool,
    pub tool_calls: Vec<ToolCallRecord>,
    pub assistant_texts: Vec<Vec<String>>,
    pub usage: TokenUsage,
    pub ended_by: Option<String>,
}

/// What the loop does after a model turn.
#[derive(Debug, Clone, PartialEq, Eq)]
pub enum ReplyStep {
    /// Dispatch the turn's tool calls, in order.
    RunTools,
    /// Send this correction as the next user turn, then call again.
    Repair(String),
    /// End the run (see [`AgentRun::finish`]).
    Finish,
}

impl AgentRun {
    /// Under `config`, the run ended through a tool only by a call of the
    /// configured terminal tool, and that call is the last one recorded.
    pub open spec fn consistent(self, config: LoopConfig) -> bool {
        self.ended_by matches Some(n) ==> {
            &&& config.terminal_tool matches Some(t) && t@ == n@
            &&& self.tool_calls@.len() > 0
            &&& self.tool_calls@.last().name@ == n@
        }
    }

    /// A run before its first turn.
    pub fn new() -> (r: Self)
        ensures
            r.turns == 0 && !r.self_repair_attempted && r.tool_calls@.len() == 0 && r.assistant_texts@.len() == 0,
            r.usage == (TokenUsage { input_tokens: 0, output_tokens: 0, cached_input_tokens: 0, total_tokens: 0 }),
            r.ended_by is None,
    {
        AgentRun {
            turns: 0,
            self_repair_attempted: false,
            tool_calls: Vec::new(),
            assistant_texts: Vec::new(),
            usage: TokenUsage { input_tokens: 0, output_tokens: 0, cached_input_tokens: 0, total_tokens: 0 },
            ended_by: None,
        }
    }

    /// Record a model turn: its text pieces, whether it called tools and
    /// its token usage. A turn with tool calls goes on to run them; a
    /// text-only turn sends the correction once (when a terminal tool and
    /// a correction are set and turns are left), else the run ends.
    pub fn on_reply(&mut self, config: &LoopConfig, texts: Vec<String>, has_tool_calls: bool, usage: TokenUsage) -> (r: ReplyStep)
        requires
            old(self).turns < config.max_turns,
        ensures
            final(self).turns == old(self).turns + 1,
            final(self).usage == old(self).usage.plus_spec(usage),
            final(self).assistant_texts@ == old(self).assistant_texts@.push(texts),
            final(self).tool_calls == old(self).tool_calls,
            final(self).ended_by == old(self).ended_by,
            has_tool_calls ==> r == ReplyStep::RunTools && final(self).self_repair_attempted == old(self).self_repair_attempted,
            !has_tool_calls ==> if !old(self).self_repair_attempted && config.terminal_tool is Some
                && config.self_repair_message is Some && final(self).turns < config.max_turns {
                (r matches ReplyStep::Repair(m) && config.self_repair_message matches Some(c) && m@ == c@)
                    && final(self).self_repair_attempted
            } else {
                r == ReplyStep::Finish && final(self).self_repair_attempted == old(self).self_repair_attempted
            },
    {
        self.usage = self.usage.plus(usage);
        self.turns = self.turns + 1;
        self.assistant_texts.push(texts);
        if has_tool_calls {
            return ReplyStep::RunTools;
        }
        match after_text_reply(config, self.turns, self.self_repair_attempted) {
            TextReplyAction::Repair(m) => {
                self.self_repair_attempted = true;
                ReplyStep::Repair(m)
            },
            TextReplyAction::Finish => ReplyStep::Finish,
        }
    }

    /// Record one dispatched tool call; returns the text handed back to
    /// the model and whether the call ends the run (it was the terminal
    /// tool).
    pub fn on_tool_result(
        &mut self,
        config: &LoopConfig,
        name: &str,
        args_json: &str,
        entries: Option<Vec<(String, Option<String>)>>,
        duration_ms: u64,
        outcome: Result<String, String>,
    ) -> (r: (String, bool))
        requires
            !summary_cut_splits(args_json@, opt_entries_view(entries)),
            old(self).ended_by is None,
        ensures
            r.1 ==> (final(self).ended_by matches Some(n) && n@ == name@),
            !r.1 ==> final(self).ended_by is None,
            final(self).consistent(*config),
            final(self).turns == old(self).turns,
            final(self).usage == old(self).usage,
            final(self).self_repair_attempted == old(self).self_repair_attempted,
            final(self).assistant_texts == old(self).assistant_texts,
            final(self).tool_calls@.len() == old(self).tool_calls@.len() + 1,
            final(self).tool_calls@.drop_last() == old(self).tool_calls@,
            final(self).tool_calls@.last().name@ == name@,
            final(self).tool_calls@.last().failed == outcome is Err,
            r.0@ == result_text(match outcome {
                Ok(t) => Ok(t@),
                Err(e) => Err(e@),
            }),
            r.1 == (config.terminal_tool matches Some(t) && t@ == name@),
    {
        let (rec, text) = tool_call_record(name, args_json, entries, duration_ms, outcome);
        let ghost before = self.tool_calls@;
        self.tool_calls.push(rec);
        proof {
            assert(self.tool_calls@.drop_last() =~= before);
        }
        let terminal = is_terminal_call(config, name);
        if terminal {
            self.ended_by = Some(String::from_str(name));
        }
        (text, terminal)
    }

    /// Whether the run may make another model call: turns are left and
    /// no terminal tool call has ended it.
    pub fn may_continue(&self, config: &LoopConfig) -> (r: bool)
        ensures
            r == (self.turns < config.max_turns && self.ended_by is None),
    {
        may_call(config, self.turns) && self.ended_by.is_none()
    }

    /// The outcome of the run: ended by the terminal tool whose call was
    /// recorded last (with no final text), or otherwise with the text of
    /// the last assistant turn that had any.
    pub fn finish(self, config: &LoopConfig) -> (r: LoopOutcome)
        requires
            self.consistent(*config),
        ensures
            r.turns == self.turns,
            r.usage == self.usage,
            r.self_repair_attempted == self.self_repair_attempted,
            r.tool_calls == self.tool_calls,
            r.terminated_via_tool == self.ended_by,
            r.terminated_via_tool matches Some(n) ==> {
                &&& config.terminal_tool matches Some(t) && t@ == n@
                &&& r.tool_calls@.len() > 0
                &&& r.tool_calls@.last().name@ == n@
            },
            r.final_text@ == if self.ended_by is Some {
                seq![]
            } else {
                last_turn_text(turns_view(self.assistant_texts@))
            },
    {
        let final_text = match &self.ended_by {
            Some(_) => String::new(),
            None => last_assistant_text(&self.assistant_texts),
        };
        LoopOutcome {
            final_text,
            usage: self.usage,
            turns: self.turns,
            terminated_via_tool: self.ended_by,
            self_repair_attempted: self.self_repair_attempted,
            tool_calls: self.tool_calls,
        }
    }

    /// A model call of the run failed: the run ends (it is consumed, so no
    /// further call is made) with an API error naming the turn that failed.
    pub fn send_failed(self, error: &str) -> (r: crate::providers::ProviderError)
        ensures
            r matches crate::providers::ProviderError::Api(m) && m@ == "completion failed on turn "@ + decimal(
                (self.turns + 1) as nat,
            ) + ": "@ + error@,
    {
        let mut v: Vec<char> = Vec::new();
        push_decimal(&mut v, self.turns as u64 + 1);
        let mut m = String::from_str("completion failed on turn ");
        push_chars(&mut m, v.as_slice());
        push_str(&mut m, ": ");
        push_str(&mut m, error);
        crate::providers::ProviderError::Api(m)
    }
}

} // verus!
