//! The command model for one AWS CLI invocation: acceptance policy,
//! description generation, argument construction, and handling of the
//! captured process output.

use vstd::prelude::*;
use vstd::string::StrSliceExecFns;
use vstd::string::StringExecFns;
use convert_case::Case;
use convert_case::Casing;

use crate::MAX_TOOL_RESPONSE_SIZE;
use crate::InvokeOutput;
use crate::OutputKind;
use crate::error::McpError;
use crate::json::JsonModel;
use crate::json::JsonValue;
use crate::json::json_text_of;
use crate::json::lookup;
use crate::json::model;
use crate::json::model_fields;
use crate::json::lemma_lookup_none;
use crate::json::lemma_lookup_push;
use crate::json::lemma_model_fields;
use crate::json::str_eq;
use crate::json::unique_keys;
use crate::json::to_json_text;
use crate::json::write_json_value;
use crate::json::i64_to_string;
use crate::json::dec_int_text;
use vstd::utf8::encode_utf8;
use vstd::utf8::decode_utf8;
use vstd::utf8::is_char_boundary;
use vstd::string::StringSliceAdditionalSpecFns;

verus! {

/// The main command description: one invocation of the AWS CLI.
pub struct UseAws {
    pub service_name: String,
    pub operation_name: String,
    pub parameters: Option<Vec<(String, JsonValue)>>,
    pub region: String,
    pub profile_name: Option<String>,
    pub label: Option<String>,
}

/// Request structure for tool calls, as decoded from the call's arguments.
pub struct UseAwsRequest {
    pub service_name: String,
    pub operation_name: String,
    pub parameters: Option<Vec<(String, JsonValue)>>,
    pub region: String,
    pub profile_name: Option<String>,
    pub label: Option<String>,
}

/// Response structure for tool calls.
pub struct UseAwsResponse {
    pub exit_status: String,
    pub stdout: String,
    pub stderr: String,
}

impl From<UseAwsRequest> for UseAws {
    /// The same fields, moved.
    fn from(request: UseAwsRequest) -> (r: Self) {
        UseAws {
            service_name: request.service_name,
            operation_name: request.operation_name,
            parameters: request.parameters,
            region: request.region,
            profile_name: request.profile_name,
            label: request.label,
        }
    }
}

impl vstd::std_specs::convert::FromSpecImpl<UseAwsRequest> for UseAws {
    open spec fn obeys_from_spec() -> bool {
        true
    }

    open spec fn from_spec(request: UseAwsRequest) -> UseAws {
        UseAws {
            service_name: request.service_name,
            operation_name: request.operation_name,
            parameters: request.parameters,
            region: request.region,
            profile_name: request.profile_name,
            label: request.label,
        }
    }
}

/// Whether `p` is a prefix of `s`.
pub open spec fn seq_starts_with(s: Seq<char>, p: Seq<char>) -> bool {
    p.len() <= s.len() && s.subrange(0, p.len() as int) == p
}

/// The exec counterpart of `seq_starts_with`.
pub fn str_starts_with(s: &str, p: &str) -> (r: bool)
    ensures
        r == seq_starts_with(s@, p@),
{
    let ns: usize = s.unicode_len();
    let np: usize = p.unicode_len();
    if np > ns {
        return false;
    }
    let mut k: usize = 0;
    while k < np
        invariant
            ns == s@.len(),
            np == p@.len(),
            np <= ns,
            k <= np,
            forall|j: int| 0 <= j < k ==> s@[j] == p@[j],
        decreases np - k,
    {
        if s.get_char(k) != p.get_char(k) {
            proof {
                assert(s@.subrange(0, np as int)[k as int] == s@[k as int]);
            }
            return false;
        }
        k = k + 1;
    }
    proof {
        assert(s@.subrange(0, np as int) =~= p@);
    }
    true
}

/// Whether the operation is read-only: it starts with one of the fixed
/// read-only verb prefixes. Anything else requires acceptance.
pub open spec fn is_read_only_op(op: Seq<char>) -> bool {
    seq_starts_with(op, "get"@) || seq_starts_with(op, "describe"@) || seq_starts_with(
        op,
        "list"@,
    ) || seq_starts_with(op, "ls"@) || seq_starts_with(op, "search"@) || seq_starts_with(
        op,
        "batch_get"@,
    )
}

/// One parameter's line in the rendered description.
pub open spec fn param_line(f: (Seq<char>, JsonModel)) -> Seq<char> {
    if f.1 matches JsonModel::Str(s) && s.len() == 0 {
        "- "@ + f.0 + "\n"@
    } else {
        "- "@ + f.0 + ": "@ + json_text_of(f.1) + "\n"@
    }
}

/// The parameter lines, in order.
pub open spec fn param_lines(fs: Seq<(Seq<char>, JsonModel)>) -> Seq<char>
    decreases fs.len(),
{
    if fs.len() == 0 {
        Seq::empty()
    } else {
        param_line(fs[0]) + param_lines(fs.skip(1))
    }
}

/// The parameters section: present only when the mapping is present and
/// non-empty.
pub open spec fn params_section(p: Option<Seq<(Seq<char>, JsonModel)>>) -> Seq<char> {
    match p {
        Option::None => Seq::empty(),
        Option::Some(fs) => if fs.len() == 0 {
            Seq::empty()
        } else {
            "Parameters: \n"@ + param_lines(fs)
        },
    }
}

/// The meaning of an optional parameter mapping.
pub open spec fn params_model(p: Option<Vec<(String, JsonValue)>>) -> Option<
    Seq<(Seq<char>, JsonModel)>,
> {
    match p {
        Option::None => Option::None,
        Option::Some(ps) => Option::Some(model_fields(ps@)),
    }
}

/// The full rendered description of a command.
pub open spec fn description_text(cmd: UseAws) -> Seq<char> {
    "Running aws cli command:\n\n"@ + "Service name: "@ + cmd.service_name@ + "\n"@
        + "Operation name: "@ + cmd.operation_name@ + "\n"@ + params_section(
        params_model(cmd.parameters),
    ) + (match cmd.profile_name {
        Option::Some(p) => "Profile name: "@ + p@ + "\n"@,
        Option::None => "Profile name: default\n"@,
    }) + "Region: "@ + cmd.region@ + (match cmd.label {
        Option::Some(l) => "\nLabel: "@ + l@,
        Option::None => Seq::empty(),
    })
}

/// Repeated leading `--` pairs removed from a parameter name.
pub open spec fn trim_dd(s: Seq<char>) -> Seq<char>
    decreases s.len(),
{
    if s.len() >= 2 && s[0] == '-' && s[1] == '-' {
        trim_dd(s.skip(2))
    } else {
        s
    }
}

/// The exec counterpart of `trim_dd`.
pub fn trim_leading_dashes<'a>(s: &'a str) -> (r: &'a str)
    ensures
        r@ == trim_dd(s@),
{
    let n: usize = s.unicode_len();
    proof {
        assert(s@.skip(0) =~= s@);
    }
    let mut i: usize = 0;
    while n - i >= 2 && s.get_char(i) == '-' && s.get_char(i + 1) == '-'
        invariant
            n == s@.len(),
            i <= n,
            trim_dd(s@) == trim_dd(s@.skip(i as int)),
        decreases n - i,
    {
        proof {
            assert(s@.skip(i as int)[0] == s@[i as int]);
            assert(s@.skip(i as int)[1] == s@[i as int + 1]);
            assert(s@.skip(i as int).skip(2) =~= s@.skip(i as int + 2));
        }
        i = i + 2;
    }
    let r = s.substring_char(i, n);
    proof {
        assert(r@ =~= s@.skip(i as int));
        if s@.skip(i as int).len() >= 2 {
            assert(s@.skip(i as int)[0] == s@[i as int]);
            assert(s@.skip(i as int)[1] == s@[i as int + 1]);
        }
    }
    r
}

/// What convert_case's kebab conversion returns for the given characters.
pub uninterp spec fn kebab_of(s: Seq<char>) -> Seq<char>;

/// Relies on convert_case's `Casing::to_case` toward kebab case: lower-case
/// words joined by hyphens; the result depends on the input characters alone.
#[verifier::external_body]
fn to_kebab(s: &str) -> (r: String)
    ensures
        r@ == kebab_of(s@),
{
    s.to_case(Case::Kebab)
}

/// The command-line flag derived from a parameter name.
pub open spec fn flag_of(name: Seq<char>) -> Seq<char> {
    "--"@ + kebab_of(trim_dd(name))
}

/// The string form of a parameter value: a JSON string's own content, any
/// other value's JSON text.
pub open spec fn param_value_text(v: JsonModel) -> Seq<char> {
    match v {
        JsonModel::Str(s) => s,
        _ => json_text_of(v),
    }
}

impl UseAws {
    /// Whether the operation may mutate and so requires acceptance: true
    /// exactly when the operation name starts with none of the read-only
    /// prefixes.
    pub fn requires_acceptance(&self) -> (r: bool)
        ensures
            r == !is_read_only_op(self.operation_name@),
    {
        let op = self.operation_name.as_str();
        !(str_starts_with(op, "get") || str_starts_with(op, "describe") || str_starts_with(
            op,
            "list",
        ) || str_starts_with(op, "ls") || str_starts_with(op, "search") || str_starts_with(
            op,
            "batch_get",
        ))
    }

    /// Appends the rendered description of this command to the caller's
    /// sink.
    #[verifier::rlimit(100)]
    pub fn queue_description(&self, updates: &mut String)
        ensures
            final(updates)@ == old(updates)@ + description_text(*self),
    {
        updates.append("Running aws cli command:\n\n");
        updates.append("Service name: ");
        updates.append(self.service_name.as_str());
        updates.append("\n");
        updates.append("Operation name: ");
        updates.append(self.operation_name.as_str());
        updates.append("\n");
        let ghost head = old(updates)@ + "Running aws cli command:\n\n"@ + "Service name: "@
            + self.service_name@ + "\n"@ + "Operation name: "@ + self.operation_name@ + "\n"@;
        proof {
            assert(updates@ =~= head);
        }
        match &self.parameters {
            Option::Some(ps) => {
                if ps.len() > 0 {
                    updates.append("Parameters: \n");
                    let ghost ms = model_fields(ps@);
                    let ghost target = head + "Parameters: \n"@ + param_lines(ms);
                    proof {
                        lemma_model_fields(ps@);
                        assert(ms.skip(0) =~= ms);
                        assert(updates@ + param_lines(ms) =~= target);
                    }
                    let mut i: usize = 0;
                    while i < ps.len()
                        invariant
                            i <= ps@.len(),
                            self.parameters matches Option::Some(qs) && qs@ == ps@,
                            ms == model_fields(ps@),
                            ms.len() == ps@.len(),
                            forall|k: int|
                                0 <= k < ps@.len() ==> ms[k] == (ps@[k].0@, model(ps@[k].1)),
                            updates@ + param_lines(ms.skip(i as int)) == target,
                        decreases ps@.len() - i,
                    {
                        let ghost pre = updates@;
                        proof {
                            assert(ms.skip(i as int)[0] == ms[i as int]);
                            assert(ms.skip(i as int).skip(1) =~= ms.skip(i as int + 1));
                        }
                        let value_is_empty_string = match &ps[i].1 {
                            JsonValue::Str(s) => s.as_str().is_empty(),
                            _ => false,
                        };
                        updates.append("- ");
                        updates.append(ps[i].0.as_str());
                        if value_is_empty_string {
                            updates.append("\n");
                        } else {
                            updates.append(": ");
                            write_json_value(&ps[i].1, updates);
                            updates.append("\n");
                        }
                        proof {
                            assert(updates@ =~= pre + param_line(ms[i as int]));
                            assert(updates@ + param_lines(ms.skip(i as int + 1)) =~= pre
                                + param_lines(ms.skip(i as int)));
                        }
                        i = i + 1;
                    }
                    proof {
                        assert(ms.skip(ms.len() as int) =~= Seq::<(Seq<char>, JsonModel)>::empty());
                        assert(updates@ =~= target);
                    }
                }
            },
            Option::None => {},
        }
        let ghost mid = head + params_section(params_model(self.parameters));
        proof {
            assert(updates@ =~= mid);
        }
        match &self.profile_name {
            Option::Some(p) => {
                updates.append("Profile name: ");
                updates.append(p.as_str());
                updates.append("\n");
            },
            Option::None => {
                updates.append("Profile name: default\n");
            },
        }
        updates.append("Region: ");
        updates.append(self.region.as_str());
        match &self.label {
            Option::Some(l) => {
                updates.append("\nLabel: ");
                updates.append(l.as_str());
            },
            Option::None => {},
        }
        proof {
            assert(updates@ =~= old(updates)@ + description_text(*self));
        }
    }

    /// Always succeeds and leaves the command unchanged.
    pub fn validate(&mut self) -> (r: Result<(), McpError>)
        ensures
            r is Ok,
            *final(self) == *old(self),
    {
        Ok(())
    }

    /// The CLI flag/value pairs derived from the parameters: names in kebab
    /// case behind `--`, string values as they are, other values as JSON
    /// text.
    pub fn cli_parameters(&self) -> (r: Option<Vec<(String, String)>>)
        ensures
            match self.parameters {
                Option::None => r is None,
                Option::Some(ps) => r matches Option::Some(out) && out@.len() == ps@.len()
                    && forall|i: int|
                    0 <= i < ps@.len() ==> (#[trigger] out@[i]).0@ == flag_of(
                        model_fields(ps@)[i].0,
                    ) && out@[i].1@ == param_value_text(model_fields(ps@)[i].1),
            },
    {
        match &self.parameters {
            Option::None => Option::None,
            Option::Some(ps) => {
                let ghost ms = model_fields(ps@);
                proof {
                    lemma_model_fields(ps@);
                }
                let mut out: Vec<(String, String)> = Vec::new();
                let mut i: usize = 0;
                while i < ps.len()
                    invariant
                        i <= ps@.len(),
                        self.parameters matches Option::Some(qs) && qs@ == ps@,
                        ms == model_fields(ps@),
                        ms.len() == ps@.len(),
                        forall|k: int|
                            0 <= k < ps@.len() ==> ms[k] == (ps@[k].0@, model(ps@[k].1)),
                        out@.len() == i,
                        forall|k: int|
                            0 <= k < i ==> (#[trigger] out@[k]).0@ == flag_of(ms[k].0)
                                && out@[k].1@ == param_value_text(ms[k].1),
                    decreases ps@.len() - i,
                {
                    let trimmed = trim_leading_dashes(ps[i].0.as_str());
                    let keb = to_kebab(trimmed);
                    let mut flag = String::from_str("--");
                    flag.append(keb.as_str());
                    let value = match &ps[i].1 {
                        JsonValue::Str(s) => s.clone(),
                        other => to_json_text(other),
                    };
                    out.push((flag, value));
                    i = i + 1;
                }
                Option::Some(out)
            },
        }
    }
}

/// The views of a sequence of strings, element by element.
pub open spec fn arg_views(ss: Seq<String>) -> Seq<Seq<char>>
    decreases ss.len(),
{
    if ss.len() == 0 {
        Seq::empty()
    } else {
        seq![ss[0]@] + arg_views(ss.skip(1))
    }
}

/// Appending one string appends its view.
pub proof fn lemma_arg_views_push(ss: Seq<String>, x: String)
    ensures
        arg_views(ss.push(x)) == arg_views(ss) + seq![x@],
    decreases ss.len(),
{
    if ss.len() == 0 {
        assert(ss.push(x)[0] == x);
        assert(ss.push(x).skip(1) =~= Seq::<String>::empty());
        assert(arg_views(ss.push(x)) == seq![x@] + arg_views(Seq::<String>::empty()));
        assert(arg_views(ss.push(x)) =~= arg_views(ss) + seq![x@]);
    } else {
        assert(ss.push(x)[0] == ss[0]);
        assert(ss.push(x).skip(1) =~= ss.skip(1).push(x));
        assert(arg_views(ss.push(x)) == seq![ss[0]@] + arg_views(ss.skip(1).push(x)));
        lemma_arg_views_push(ss.skip(1), x);
        assert(arg_views(ss) == seq![ss[0]@] + arg_views(ss.skip(1)));
        assert(arg_views(ss.push(x)) =~= arg_views(ss) + seq![x@]);
    }
}

/// The argv entries contributed by the parameters: each flag, followed by
/// the value unless the value is the empty string.
pub open spec fn params_args_text(fs: Seq<(Seq<char>, JsonModel)>) -> Seq<Seq<char>>
    decreases fs.len(),
{
    if fs.len() == 0 {
        Seq::empty()
    } else {
        (if param_value_text(fs[0].1).len() == 0 {
            seq![flag_of(fs[0].0)]
        } else {
            seq![flag_of(fs[0].0), param_value_text(fs[0].1)]
        }) + params_args_text(fs.skip(1))
    }
}

/// The full argument vector for the external tool: region, optional
/// profile, service area and operation, then the parameter flags.
pub open spec fn args_model(cmd: UseAws) -> Seq<Seq<char>> {
    seq!["--region"@, cmd.region@] + (match cmd.profile_name {
        Option::Some(p) => seq!["--profile"@, p@],
        Option::None => Seq::<Seq<char>>::empty(),
    }) + seq![cmd.service_name@, cmd.operation_name@] + (match cmd.parameters {
        Option::Some(ps) => params_args_text(model_fields(ps@)),
        Option::None => Seq::<Seq<char>>::empty(),
    })
}

impl UseAws {
    /// Builds the argument vector for the external tool.
    pub fn command_args(&self) -> (r: Vec<String>)
        ensures
            arg_views(r@) == args_model(*self),
    {
        let mut args: Vec<String> = Vec::new();
        push_arg(&mut args, String::from_str("--region"));
        push_arg(&mut args, self.region.clone());
        match &self.profile_name {
            Option::Some(p) => {
                push_arg(&mut args, String::from_str("--profile"));
                push_arg(&mut args, p.clone());
            },
            Option::None => {},
        }
        push_arg(&mut args, self.service_name.clone());
        push_arg(&mut args, self.operation_name.clone());
        let ghost fixed = seq!["--region"@, self.region@] + (match &self.profile_name {
            Option::Some(p) => seq!["--profile"@, p@],
            Option::None => Seq::<Seq<char>>::empty(),
        }) + seq![self.service_name@, self.operation_name@];
        proof {
            assert(arg_views(args@) =~= fixed);
        }
        match self.cli_parameters() {
            Option::None => {},
            Option::Some(pairs) => {
                let ghost ps = self.parameters->Some_0;
                let ghost ms = model_fields(ps@);
                proof {
                    lemma_model_fields(ps@);
                    assert(ms.skip(0) =~= ms);
                }
                let mut i: usize = 0;
                while i < pairs.len()
                    invariant
                        i <= pairs@.len(),
                        self.parameters matches Option::Some(qs) && qs@ == ps@,
                        ms == model_fields(ps@),
                        pairs@.len() == ms.len(),
                        forall|k: int|
                            0 <= k < ms.len() ==> (#[trigger] pairs@[k]).0@ == flag_of(ms[k].0)
                                && pairs@[k].1@ == param_value_text(ms[k].1),
                        arg_views(args@) + params_args_text(ms.skip(i as int)) == fixed
                            + params_args_text(ms),
                    decreases pairs@.len() - i,
                {
                    let ghost pre = arg_views(args@);
                    proof {
                        assert(ms.skip(i as int)[0] == ms[i as int]);
                        assert(ms.skip(i as int).skip(1) =~= ms.skip(i as int + 1));
                    }
                    push_arg(&mut args, pairs[i].0.clone());
                    if !pairs[i].1.as_str().is_empty() {
                        push_arg(&mut args, pairs[i].1.clone());
                        proof {
                            assert(arg_views(args@) =~= pre + seq![
                                flag_of(ms[i as int].0),
                                param_value_text(ms[i as int].1),
                            ]);
                        }
                    } else {
                        proof {
                            assert(arg_views(args@) =~= pre + seq![flag_of(ms[i as int].0)]);
                        }
                    }
                    proof {
                        assert(arg_views(args@) + params_args_text(ms.skip(i as int + 1)) =~= pre
                            + params_args_text(ms.skip(i as int)));
                    }
                    i = i + 1;
                }
                proof {
                    assert(ms.skip(ms.len() as int) =~= Seq::<(Seq<char>, JsonModel)>::empty());
                }
            },
        }
        proof {
            assert(arg_views(args@) =~= args_model(*self));
        }
        args
    }
}

/// Appends one argument, tracking the views.
fn push_arg(args: &mut Vec<String>, x: String)
    ensures
        final(args)@ == old(args)@.push(x),
        arg_views(final(args)@) == arg_views(old(args)@) + seq![x@],
{
    proof {
        lemma_arg_views_push(args@, x);
    }
    args.push(x);
}

/// The token this server appends to the designated environment variable.
pub open spec fn user_agent_metadata() -> Seq<char> {
    "UseAws-MCP-Server Version/0.1.0"@
}

/// The name of the environment variable that carries user-agent metadata.
pub fn user_agent_env_var() -> (r: &'static str)
    ensures
        r@ == "AWS_EXECUTION_ENV"@,
{
    "AWS_EXECUTION_ENV"
}

/// The new value of the user-agent environment variable: the identifying
/// token, appended after any existing non-empty value.
pub fn user_agent_env_value(existing: Option<&str>) -> (r: String)
    ensures
        match existing {
            Option::Some(e) => if e@.len() == 0 {
                r@ == user_agent_metadata()
            } else {
                r@ == e@ + " "@ + user_agent_metadata()
            },
            Option::None => r@ == user_agent_metadata(),
        },
{
    match existing {
        Option::Some(e) => {
            if e.is_empty() {
                String::from_str("UseAws-MCP-Server Version/0.1.0")
            } else {
                let mut r = e.to_owned();
                r.append(" ");
                r.append("UseAws-MCP-Server Version/0.1.0");
                proof {
                    assert(r@ =~= e@ + " "@ + user_agent_metadata());
                }
                r
            }
        },
        Option::None => String::from_str("UseAws-MCP-Server Version/0.1.0"),
    }
}

/// The marker appended when a stream is cut to its share of the budget.
pub open spec fn truncation_marker() -> Seq<char> {
    " ... truncated"@
}

/// The largest byte index at or below `b` that falls on a character
/// boundary.
pub open spec fn trunc_boundary(bytes: Seq<u8>, b: int) -> int
    decreases b,
{
    if b <= 0 {
        0
    } else if is_char_boundary(bytes, b) {
        b
    } else {
        trunc_boundary(bytes, b - 1)
    }
}

/// A stream within its share stays as it is; a longer one is cut at the
/// largest character boundary within the share, and the marker follows.
pub open spec fn truncated_stream_text(s: Seq<char>, share: int) -> Seq<char> {
    if encode_utf8(s).len() <= share {
        s
    } else {
        decode_utf8(encode_utf8(s).subrange(0, trunc_boundary(encode_utf8(s), share)))
            + truncation_marker()
    }
}

/// Below the first boundary at or under `share` no other boundary lies
/// between, so `trunc_boundary` finds exactly it.
proof fn lemma_trunc_boundary(bytes: Seq<u8>, b: int, share: int)
    requires
        0 <= b <= share,
        is_char_boundary(bytes, b),
        forall|b2: int| b < b2 <= share ==> !is_char_boundary(bytes, b2),
    ensures
        trunc_boundary(bytes, share) == b,
    decreases share - b,
{
    if share == b {
        if b == 0 {
        } else {
        }
    } else {
        lemma_trunc_boundary(bytes, b, share - 1);
    }
}

/// Cuts one captured stream to its share of the output budget.
pub fn truncate_stream(s: &str, share: usize) -> (r: String)
    ensures
        r@ == truncated_stream_text(s@, share as int),
{
    proof {
        vstd::utf8::encode_utf8_valid_utf8(s@);
        vstd::utf8::is_char_boundary_start_end_of_seq(s.spec_bytes());
    }
    let bl: usize = s.as_bytes().len();
    proof {
        broadcast use vstd::slice::axiom_spec_len;

        assert(bl == s.spec_bytes().len());
    }
    if bl <= share {
        return s.to_owned();
    }
    let mut b: usize = share;
    while !s.is_char_boundary(b)
        invariant
            b <= share,
            share < s.spec_bytes().len(),
            forall|b2: int| b < b2 <= share ==> !is_char_boundary(s.spec_bytes(), b2),
        decreases b,
    {
        proof {
            vstd::utf8::encode_utf8_valid_utf8(s@);
            vstd::utf8::is_char_boundary_start_end_of_seq(s.spec_bytes());
            assert(b > 0);
        }
        b = b - 1;
    }
    proof {
        lemma_trunc_boundary(s.spec_bytes(), b as int, share as int);
    }
    let (head, _tail) = s.split_at(b);
    let mut r = head.to_owned();
    r.append(" ... truncated");
    proof {
        vstd::utf8::encode_utf8_valid_utf8(s@);
        vstd::utf8::encode_utf8_decode_utf8(head@);
        assert(encode_utf8(head@) =~= encode_utf8(s@).subrange(0, b as int));
        assert(r@ =~= truncated_stream_text(s@, share as int));
    }
    r
}

/// The share of the total output budget that each stream may keep.
pub open spec fn stream_share() -> int {
    MAX_TOOL_RESPONSE_SIZE as int / 2
}

/// The JSON object reporting one completed invocation.
pub open spec fn invocation_result_model(status: int, out: Seq<char>, err: Seq<char>) -> JsonModel {
    JsonModel::Obj(
        seq![
            ("exit_status"@, JsonModel::Str(dec_int_text(status))),
            ("stdout"@, JsonModel::Str(truncated_stream_text(out, stream_share()))),
            ("stderr"@, JsonModel::Str(truncated_stream_text(err, stream_share()))),
        ],
    )
}

/// Maps a finished subprocess to the tool's result: exit code zero (or an
/// unreported code) yields a JSON result with both captured streams, each
/// truncated to its share of the budget; any other exit code fails with the
/// truncated stderr as the error message.
pub fn process_output(status_code: Option<i32>, stdout: &str, stderr: &str) -> (r: Result<
    InvokeOutput,
    McpError,
>)
    ensures
        r is Ok <==> (status_code matches Option::Some(c) ==> c == 0),
        r matches Ok(o) ==> o.output matches OutputKind::Json(j) && j@ == invocation_result_model(
            0,
            stdout@,
            stderr@,
        ),
        r matches Err(e) ==> e matches McpError::AwsCli(m) && m@ == truncated_stream_text(
            stderr@,
            stream_share(),
        ),
{
    let code: i32 = match status_code {
        Option::Some(c) => c,
        Option::None => 0,
    };
    let err_text = truncate_stream(stderr, MAX_TOOL_RESPONSE_SIZE / 2);
    if code == 0 {
        let out_text = truncate_stream(stdout, MAX_TOOL_RESPONSE_SIZE / 2);
        let mut fields: Vec<(String, JsonValue)> = Vec::new();
        fields.push((String::from_str("exit_status"), JsonValue::Str(i64_to_string(0))));
        fields.push((String::from_str("stdout"), JsonValue::Str(out_text)));
        fields.push((String::from_str("stderr"), JsonValue::Str(err_text)));
        let value = JsonValue::Obj(fields);
        proof {
            lemma_model_fields(value->Obj_0@);
            assert(model_fields(value->Obj_0@) =~= invocation_result_model(
                0,
                stdout@,
                stderr@,
            )->Obj_0);
        }
        Ok(InvokeOutput { output: OutputKind::Json(value) })
    } else {
        Err(McpError::AwsCli(err_text))
    }
}

/// The JSON object a [`UseAwsResponse`] serializes to.
pub open spec fn use_aws_response_model(resp: UseAwsResponse) -> JsonModel {
    JsonModel::Obj(
        seq![
            ("exit_status"@, JsonModel::Str(resp.exit_status@)),
            ("stdout"@, JsonModel::Str(resp.stdout@)),
            ("stderr"@, JsonModel::Str(resp.stderr@)),
        ],
    )
}

impl UseAwsResponse {
    /// Reads the response fields back out of an invocation output: missing
    /// or non-string entries fall back to exit status `0` and empty streams.
    pub fn from_output(output: InvokeOutput) -> (r: UseAwsResponse)
        ensures
            match output.output {
                OutputKind::Json(j) => r.exit_status@ == json_field_or(j@, "exit_status"@, "0"@)
                    && r.stdout@ == json_field_or(j@, "stdout"@, Seq::empty()) && r.stderr@
                    == json_field_or(j@, "stderr"@, Seq::empty()),
                OutputKind::Text(t) => r.exit_status@ == "0"@ && r.stdout@ == t@ && r.stderr@
                    == Seq::<char>::empty(),
            },
    {
        match output.output {
            OutputKind::Json(j) => {
                let exit_status = json_field_or_exec(&j, "exit_status", "0");
                let stdout = json_field_or_exec(&j, "stdout", "");
                let stderr = json_field_or_exec(&j, "stderr", "");
                proof {
                    reveal_strlit("");
                }
                UseAwsResponse { exit_status, stdout, stderr }
            },
            OutputKind::Text(t) => {
                UseAwsResponse {
                    exit_status: String::from_str("0"),
                    stdout: t,
                    stderr: String::new(),
                }
            },
        }
    }

    /// Serializes the response as its JSON object.
    pub fn serialize(&self) -> (r: String)
        ensures
            r@ == json_text_of(use_aws_response_model(*self)),
    {
        let mut fields: Vec<(String, JsonValue)> = Vec::new();
        fields.push((String::from_str("exit_status"), JsonValue::Str(self.exit_status.clone())));
        fields.push((String::from_str("stdout"), JsonValue::Str(self.stdout.clone())));
        fields.push((String::from_str("stderr"), JsonValue::Str(self.stderr.clone())));
        let value = JsonValue::Obj(fields);
        proof {
            lemma_model_fields(value->Obj_0@);
            assert(model_fields(value->Obj_0@) =~= use_aws_response_model(*self)->Obj_0);
        }
        to_json_text(&value)
    }
}

/// Whether an optional field is acceptable as an optional string: absent,
/// null, or a string.
pub open spec fn opt_str_field_ok(o: Option<JsonModel>) -> bool {
    match o {
        Option::None => true,
        Option::Some(JsonModel::Null) => true,
        Option::Some(JsonModel::Str(_)) => true,
        _ => false,
    }
}

/// The content of an optional string field: `None` when absent or null.
pub open spec fn opt_str_field(o: Option<JsonModel>) -> Option<Seq<char>> {
    match o {
        Option::Some(JsonModel::Str(s)) => Option::Some(s),
        _ => Option::None,
    }
}

/// Whether a JSON value has the shape of a tool-call argument object: the
/// three required string fields present, the optional strings absent, null
/// or strings, and the parameters absent, null or an object.
pub open spec fn request_shape(m: JsonModel) -> bool {
    match m {
        JsonModel::Obj(fs) => {
            &&& lookup(fs, "service_name"@) matches Option::Some(JsonModel::Str(_))
            &&& lookup(fs, "operation_name"@) matches Option::Some(JsonModel::Str(_))
            &&& lookup(fs, "region"@) matches Option::Some(JsonModel::Str(_))
            &&& opt_str_field_ok(lookup(fs, "profile_name"@))
            &&& opt_str_field_ok(lookup(fs, "label"@))
            &&& (match lookup(fs, "parameters"@) {
                Option::None => true,
                Option::Some(JsonModel::Null) => true,
                Option::Some(JsonModel::Obj(_)) => true,
                _ => false,
            })
        },
        _ => false,
    }
}

/// Whether the decoded request's fields agree with the argument object.
pub open spec fn request_decodes_to(m: JsonModel, u: UseAwsRequest) -> bool {
    match m {
        JsonModel::Obj(fs) => {
            &&& lookup(fs, "service_name"@) == Option::Some(JsonModel::Str(u.service_name@))
            &&& lookup(fs, "operation_name"@) == Option::Some(JsonModel::Str(u.operation_name@))
            &&& lookup(fs, "region"@) == Option::Some(JsonModel::Str(u.region@))
            &&& (match u.profile_name {
                Option::Some(p) => opt_str_field(lookup(fs, "profile_name"@)) == Option::Some(
                    p@,
                ),
                Option::None => opt_str_field(lookup(fs, "profile_name"@)) is None,
            })
            &&& (match u.label {
                Option::Some(l) => opt_str_field(lookup(fs, "label"@)) == Option::Some(l@),
                Option::None => opt_str_field(lookup(fs, "label"@)) is None,
            })
            &&& (match u.parameters {
                Option::Some(ps) => lookup(fs, "parameters"@) matches Option::Some(
                    JsonModel::Obj(pfs),
                ) && unique_keys(model_fields(ps@)) && (forall|key: Seq<char>|
                    #[trigger] lookup(model_fields(ps@), key) == lookup(pfs, key)),
                Option::None => !(lookup(fs, "parameters"@) matches Option::Some(
                    JsonModel::Obj(_),
                )),
            })
        },
        _ => true,
    }
}

/// Reads one string field that must be present.
pub(crate) fn required_str_field(v: &JsonValue, key: &str) -> (r: Option<String>)
    ensures
        match r {
            Option::Some(s) => v@ matches JsonModel::Obj(fs) && lookup(fs, key@)
                == Option::Some(JsonModel::Str(s@)),
            Option::None => !(v@ matches JsonModel::Obj(fs) && lookup(fs, key@) matches
                Option::Some(JsonModel::Str(_))),
        },
{
    match v.get(key) {
        Option::Some(w) => match w.as_str() {
            Option::Some(s) => Option::Some(s.to_owned()),
            Option::None => Option::None,
        },
        Option::None => Option::None,
    }
}

/// Decodes the arguments of a tool call into a request, as the argument
/// object's shape demands: `Ok` exactly when the shape fits, with each field
/// carried over. The parameters become a mapping: a key bound twice in the
/// argument object keeps its first binding.
pub fn decode_use_aws_request(v: &JsonValue) -> (r: Result<UseAwsRequest, McpError>)
    ensures
        r is Ok <==> request_shape(v@),
        r matches Ok(u) ==> request_decodes_to(v@, u),
        r matches Err(e) ==> e is Serialization,
{
    let service_name = match required_str_field(v, "service_name") {
        Option::Some(s) => s,
        Option::None => {
            return Err(McpError::Serialization(String::from_str("invalid use_aws arguments")));
        },
    };
    let operation_name = match required_str_field(v, "operation_name") {
        Option::Some(s) => s,
        Option::None => {
            return Err(McpError::Serialization(String::from_str("invalid use_aws arguments")));
        },
    };
    let region = match required_str_field(v, "region") {
        Option::Some(s) => s,
        Option::None => {
            return Err(McpError::Serialization(String::from_str("invalid use_aws arguments")));
        },
    };
    let profile_name = match v.get("profile_name") {
        Option::None => Option::None,
        Option::Some(w) => match w {
            JsonValue::Null => Option::None,
            JsonValue::Str(s) => Option::Some(s.clone()),
            _ => {
                return Err(
                    McpError::Serialization(String::from_str("invalid use_aws arguments")),
                );
            },
        },
    };
    let label = match v.get("label") {
        Option::None => Option::None,
        Option::Some(w) => match w {
            JsonValue::Null => Option::None,
            JsonValue::Str(s) => Option::Some(s.clone()),
            _ => {
                return Err(
                    McpError::Serialization(String::from_str("invalid use_aws arguments")),
                );
            },
        },
    };
    let parameters = match v.get("parameters") {
        Option::None => Option::None,
        Option::Some(w) => match w {
            JsonValue::Null => Option::None,
            JsonValue::Obj(_) => {
                let d = w.duplicate();
                match d {
                    JsonValue::Obj(pfs) => Option::Some(dedup_fields(pfs)),
                    _ => {
                        proof {
                            assert(false);
                        }
                        Option::None
                    },
                }
            },
            _ => {
                return Err(
                    McpError::Serialization(String::from_str("invalid use_aws arguments")),
                );
            },
        },
    };
    Ok(UseAwsRequest { service_name, operation_name, parameters, region, profile_name, label })
}

/// Whether some member of the list binds `key`.
fn fields_contain_key(fs: &Vec<(String, JsonValue)>, key: &str) -> (r: bool)
    ensures
        r == (lookup(model_fields(fs@), key@) is Some),
{
    let ghost ms = model_fields(fs@);
    proof {
        lemma_model_fields(fs@);
        assert(ms.skip(0) =~= ms);
    }
    let mut i: usize = 0;
    while i < fs.len()
        invariant
            i <= fs@.len(),
            ms == model_fields(fs@),
            ms.len() == fs@.len(),
            forall|k: int| 0 <= k < fs@.len() ==> ms[k] == (fs@[k].0@, model(fs@[k].1)),
            lookup(ms, key@) == lookup(ms.skip(i as int), key@),
        decreases fs@.len() - i,
    {
        proof {
            assert(ms.skip(i as int)[0] == ms[i as int]);
            assert(ms.skip(i as int).skip(1) =~= ms.skip(i as int + 1));
        }
        if str_eq(fs[i].0.as_str(), key) {
            return true;
        }
        i = i + 1;
    }
    proof {
        assert(ms.skip(ms.len() as int) =~= Seq::<(Seq<char>, JsonModel)>::empty());
    }
    false
}

/// Keeps the first binding of each key, in order of first appearance, so
/// that the result is a mapping and looks up as the original did.
fn dedup_fields(pfs: Vec<(String, JsonValue)>) -> (r: Vec<(String, JsonValue)>)
    ensures
        unique_keys(model_fields(r@)),
        forall|key: Seq<char>|
            #[trigger] lookup(model_fields(r@), key) == lookup(model_fields(pfs@), key),
{
    let ghost src = model_fields(pfs@);
    proof {
        lemma_model_fields(pfs@);
    }
    let mut out: Vec<(String, JsonValue)> = Vec::new();
    proof {
        lemma_model_fields(out@);
        assert forall|key: Seq<char>|
            #[trigger] lookup(model_fields(out@), key) == lookup(src.take(0), key) by {
            assert(src.take(0) =~= Seq::<(Seq<char>, JsonModel)>::empty());
            assert(model_fields(out@) =~= Seq::<(Seq<char>, JsonModel)>::empty());
        }
    }
    let mut i: usize = 0;
    while i < pfs.len()
        invariant
            i <= pfs@.len(),
            src == model_fields(pfs@),
            src.len() == pfs@.len(),
            forall|k: int| 0 <= k < pfs@.len() ==> src[k] == (pfs@[k].0@, model(pfs@[k].1)),
            unique_keys(model_fields(out@)),
            forall|key: Seq<char>|
                #[trigger] lookup(model_fields(out@), key) == lookup(src.take(i as int), key),
        decreases pfs@.len() - i,
    {
        let ghost pre = model_fields(out@);
        let present = fields_contain_key(&out, pfs[i].0.as_str());
        if !present {
            let k = pfs[i].0.clone();
            let d = pfs[i].1.duplicate();
            proof {
                lemma_model_fields(out@);
            }
            out.push((k, d));
            proof {
                lemma_model_fields(out@);
                assert(model_fields(out@) =~= pre.push(src[i as int]));
                lemma_lookup_none(pre, src[i as int].0);
                assert forall|a: int, b: int|
                    0 <= a < b < model_fields(out@).len() implies model_fields(out@)[a].0
                    != model_fields(out@)[b].0 by {
                    if b < pre.len() {
                    } else {
                        assert(model_fields(out@)[b] == src[i as int]);
                        assert(model_fields(out@)[a] == pre[a]);
                    }
                }
            }
        }
        proof {
            assert(src.take(i as int + 1) =~= src.take(i as int).push(src[i as int]));
            assert forall|key: Seq<char>|
                #[trigger] lookup(model_fields(out@), key) == lookup(
                src.take(i as int + 1),
                key,
            ) by {
                lemma_lookup_push(src.take(i as int), src[i as int], key);
                if !present {
                    lemma_lookup_push(pre, src[i as int], key);
                }
            }
        }
        i = i + 1;
    }
    proof {
        assert(src.take(src.len() as int) =~= src);
    }
    out
}

/// The text of a string field of a JSON object, or the fallback when the
/// value is not an object, the field is missing, or it is not a string.
pub open spec fn json_field_or(m: JsonModel, key: Seq<char>, fallback: Seq<char>) -> Seq<char> {
    match m {
        JsonModel::Obj(fs) => match lookup(fs, key) {
            Option::Some(JsonModel::Str(t)) => t,
            _ => fallback,
        },
        _ => fallback,
    }
}

/// The exec counterpart of `json_field_or`.
fn json_field_or_exec(j: &JsonValue, key: &str, fallback: &str) -> (r: String)
    ensures
        r@ == json_field_or(j@, key@, fallback@),
{
    match j.get(key) {
        Option::Some(v) => match v.as_str() {
            Option::Some(s) => s.to_owned(),
            Option::None => fallback.to_owned(),
        },
        Option::None => fallback.to_owned(),
    }
}

} // verus!
