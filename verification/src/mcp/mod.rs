//! Tools served over the Model Context Protocol: the configuration of
//! servers, the filtering and naming of their tools, and the reading of their
//! answers.

pub mod laws;
pub mod mock_server;
pub mod provider;

use vstd::prelude::*;
use crate::text::{
    chars_of, clone_opt, find_char, join2, lemma_find_char_is, opt_text, text_eq, text_of, texts,
};
use crate::text_map::{entry_map, lemma_map_values_insert, text_values, TextMap};

verus! {

/// Why an operation on a server failed.
#[derive(Debug, PartialEq)]
pub enum McpError {
    Transport(String),
    ToolCall(String),
    Config(String),
    Io(String),
}

impl McpError {
    /// The message shown for the error.
    pub open spec fn message(&self) -> Seq<char> {
        match self {
            McpError::Transport(e) => "transport error: "@ + e@,
            McpError::ToolCall(e) => "tool call failed: "@ + e@,
            McpError::Config(e) => "config error: "@ + e@,
            McpError::Io(e) => "IO error: "@ + e@,
        }
    }

    /// The message shown for the error.
    pub fn to_message(&self) -> (r: String)
        ensures
            r@ == self.message(),
    {
        match self {
            McpError::Transport(e) => join2("transport error: ", e.as_str()),
            McpError::ToolCall(e) => join2("tool call failed: ", e.as_str()),
            McpError::Config(e) => join2("config error: ", e.as_str()),
            McpError::Io(e) => join2("IO error: ", e.as_str()),
        }
    }
}

/// How one server is reached, and which of its tools are wanted. A server is
/// reached over stdio (`command` and `args`) or over HTTP (`url`).
#[derive(Debug)]
pub struct McpServerConfig {
    pub command: Option<String>,
    pub args: Option<Vec<String>>,
    pub env: Option<TextMap<String>>,
    pub url: Option<String>,
    pub headers: Option<TextMap<String>>,
    pub allow_tools: Option<Vec<String>>,
    pub block_tools: Option<Vec<String>>,
}

/// The model of a server configuration.
pub ghost struct McpServerView {
    pub command: Option<Seq<char>>,
    pub args: Option<Seq<Seq<char>>>,
    pub env: Option<Map<Seq<char>, Seq<char>>>,
    pub url: Option<Seq<char>>,
    pub headers: Option<Map<Seq<char>, Seq<char>>>,
    pub allow_tools: Option<Seq<Seq<char>>>,
    pub block_tools: Option<Seq<Seq<char>>>,
}

/// The texts of an optional list.
pub open spec fn opt_texts(v: Option<Vec<String>>) -> Option<Seq<Seq<char>>> {
    match v {
        Some(s) => Some(texts(s@)),
        None => None,
    }
}

/// What an optional map of texts holds.
pub open spec fn opt_text_map(m: Option<TextMap<String>>) -> Option<Map<Seq<char>, Seq<char>>> {
    match m {
        Some(t) => Some(text_values(t@)),
        None => None,
    }
}

impl View for McpServerConfig {
    type V = McpServerView;

    open spec fn view(&self) -> McpServerView {
        McpServerView {
            command: opt_text(self.command),
            args: opt_texts(self.args),
            env: opt_text_map(self.env),
            url: opt_text(self.url),
            headers: opt_text_map(self.headers),
            allow_tools: opt_texts(self.allow_tools),
            block_tools: opt_texts(self.block_tools),
        }
    }
}

impl McpServerConfig {
    /// Whether the server is launched as a command.
    pub fn is_stdio(&self) -> (r: bool)
        ensures
            r == (self@.command is Some),
    {
        self.command.is_some()
    }

    /// Whether the server is reached at a URL.
    pub fn is_http(&self) -> (r: bool)
        ensures
            r == (self@.url is Some),
    {
        self.url.is_some()
    }
}

/// The configuration of all servers, by name.
#[derive(Debug)]
pub struct McpConfig {
    pub servers: TextMap<McpServerConfig>,
}

impl View for McpConfig {
    type V = Map<Seq<char>, McpServerView>;

    open spec fn view(&self) -> Map<Seq<char>, McpServerView> {
        server_views(self.servers@)
    }
}

/// The models of the servers, by name.
pub open spec fn server_views(m: Map<Seq<char>, McpServerConfig>) -> Map<Seq<char>, McpServerView> {
    m.map_values(|s: McpServerConfig| s@)
}

/// What the placeholder `${name}` becomes: the first of the two environments
/// that holds the name decides, and an unknown or empty name leaves the
/// placeholder as it is.
pub open spec fn placeholder(
    name: Seq<char>,
    extra: Map<Seq<char>, Seq<char>>,
    process: Map<Seq<char>, Seq<char>>,
) -> Seq<char> {
    if name.len() > 0 && extra.dom().contains(name) {
        extra[name]
    } else if name.len() > 0 && process.dom().contains(name) {
        process[name]
    } else {
        seq!['$', '{'] + name + seq!['}']
    }
}

/// A text with its placeholders replaced, from left to right. What follows an
/// unclosed `${` stays as it is.
pub open spec fn resolved(
    s: Seq<char>,
    extra: Map<Seq<char>, Seq<char>>,
    process: Map<Seq<char>, Seq<char>>,
) -> Seq<char>
    decreases s.len(),
{
    if s.len() == 0 {
        Seq::empty()
    } else if s.len() >= 2 && s[0] == '$' && s[1] == '{' {
        let rest = s.skip(2);
        let k = find_char(rest, '}');
        if 0 <= k < rest.len() {
            placeholder(rest.take(k), extra, process) + resolved(rest.skip(k + 1), extra, process)
        } else {
            s
        }
    } else {
        seq![s[0]] + resolved(s.skip(1), extra, process)
    }
}

/// Every value of a map with its placeholders replaced.
pub open spec fn resolved_map(
    m: Map<Seq<char>, Seq<char>>,
    extra: Map<Seq<char>, Seq<char>>,
    process: Map<Seq<char>, Seq<char>>,
) -> Map<Seq<char>, Seq<char>> {
    m.map_values(|s: Seq<char>| resolved(s, extra, process))
}

/// A server configuration with the placeholders in its `env` and `headers`
/// replaced, and everything else as it was.
pub open spec fn resolved_server(
    s: McpServerView,
    extra: Map<Seq<char>, Seq<char>>,
    process: Map<Seq<char>, Seq<char>>,
) -> McpServerView {
    McpServerView {
        env: match s.env {
            Some(m) => Some(resolved_map(m, extra, process)),
            None => None,
        },
        headers: match s.headers {
            Some(m) => Some(resolved_map(m, extra, process)),
            None => None,
        },
        ..s
    }
}

/// `value` with its placeholders replaced.
pub fn resolve_string(value: &str, extra: &TextMap<String>, process: &TextMap<String>) -> (r: String)
    ensures
        r@ == resolved(value@, text_values(extra@), text_values(process@)),
{
    let ghost e = text_values(extra@);
    let ghost p = text_values(process@);
    let chars = chars_of(value);
    let n: usize = chars.len();
    let mut out = String::new();
    let mut i: usize = 0;
    assert(value@.skip(0) =~= value@);
    assert(out@ + resolved(value@.skip(0), e, p) =~= resolved(value@, e, p));
    while i < n
        invariant
            i <= n,
            n == chars@.len(),
            chars@ == value@,
            e == text_values(extra@),
            p == text_values(process@),
            out@ + resolved(value@.skip(i as int), e, p) == resolved(value@, e, p),
        decreases n - i,
    {
        let ghost before = out@;
        let ghost s = value@.skip(i as int);
        if chars[i] == '$' && i + 1 < n && chars[i + 1] == '{' {
            let ghost rest = s.skip(2);
            let start: usize = i + 2;
            let mut k: usize = start;
            while k < n && chars[k] != '}'
                invariant
                    start <= k <= n,
                    n == chars@.len(),
                    forall|q: int| start <= q < k ==> chars@[q] != '}',
                decreases n - k,
            {
                k = k + 1;
            }
            assert(rest =~= value@.skip(start as int));
            proof {
                lemma_find_char_is(rest, '}', k - start);
            }
            if k == n {
                let tail = text_of(&chars, i, n);
                assert(tail@ =~= s);
                out.append(tail.as_str());
                return out;
            }
            let name = text_of(&chars, start, k);
            assert(name@ =~= rest.take(k - start));
            assert(rest.skip(k - start + 1) =~= value@.skip(k + 1));
            if start == k {
                out.append("${}");
                proof {
                    reveal_strlit("${}");
                }
                assert("${}"@ =~= placeholder(name@, e, p));
            } else {
                match extra.get(name.as_str()) {
                    Some(v) => {
                        out.append(v.as_str());
                    },
                    None => match process.get(name.as_str()) {
                        Some(v) => {
                            out.append(v.as_str());
                        },
                        None => {
                            out.append("${");
                            out.append(name.as_str());
                            out.push('}');
                            proof {
                                reveal_strlit("${");
                            }
                            assert(out@ =~= before + placeholder(name@, e, p));
                        },
                    },
                }
            }
            assert(out@ == before + placeholder(name@, e, p));
            i = k + 1;
            assert(out@ + resolved(value@.skip(i as int), e, p) =~= before + resolved(s, e, p));
        } else {
            out.push(chars[i]);
            assert(s.skip(1) =~= value@.skip(i + 1));
            i = i + 1;
            assert(out@ + resolved(value@.skip(i as int), e, p) =~= before + resolved(s, e, p));
        }
    }
    assert(out@ + resolved(value@.skip(i as int), e, p) =~= out@);
    out
}

/// Every value of `map` with its placeholders replaced.
pub fn resolve_map(
    map: &TextMap<String>,
    extra: &TextMap<String>,
    process: &TextMap<String>,
) -> (r: TextMap<String>)
    ensures
        text_values(r@) == resolved_map(
            text_values(map@),
            text_values(extra@),
            text_values(process@),
        ),
{
    let ghost e = text_values(extra@);
    let ghost p = text_values(process@);
    let mut out: Vec<(String, String)> = Vec::new();
    let mut i: usize = 0;
    assert(text_values(entry_map(out@)) =~= resolved_map(
        text_values(entry_map(map.entries@.take(0))),
        e,
        p,
    ));
    while i < map.entries.len()
        invariant
            i <= map.entries@.len(),
            e == text_values(extra@),
            p == text_values(process@),
            text_values(entry_map(out@)) == resolved_map(
                text_values(entry_map(map.entries@.take(i as int))),
                e,
                p,
            ),
        decreases map.entries@.len() - i,
    {
        let ghost before = out@;
        let ghost next = map.entries@.take(i + 1);
        assert(next.drop_last() =~= map.entries@.take(i as int));
        let value = resolve_string(map.entries[i].1.as_str(), extra, process);
        out.push((map.entries[i].0.clone(), value));
        i = i + 1;
        assert(out@.drop_last() =~= before);
        proof {
            let key = map.entries@[i - 1].0@;
            let head = entry_map(next.drop_last());
            let f = |t: String| t@;
            lemma_map_values_insert(entry_map(before), key, out@.last().1, f);
            lemma_map_values_insert(head, key, next.last().1, f);
            lemma_map_values_insert(
                text_values(head),
                key,
                next.last().1@,
                |t: Seq<char>| resolved(t, e, p),
            );
        }
    }
    assert(map.entries@.take(i as int) =~= map.entries@);
    TextMap { entries: out }
}

fn copy_list(v: &Option<Vec<String>>) -> (r: Option<Vec<String>>)
    ensures
        opt_texts(r) == opt_texts(*v),
{
    match v {
        Some(items) => {
            let mut out: Vec<String> = Vec::new();
            let mut i: usize = 0;
            while i < items.len()
                invariant
                    i <= items@.len(),
                    out@ == items@.take(i as int),
                decreases items@.len() - i,
            {
                out.push(items[i].clone());
                i = i + 1;
                assert(out@ =~= items@.take(i as int));
            }
            assert(out@ =~= items@);
            Some(out)
        },
        None => None,
    }
}

impl McpConfig {
    /// The configuration with the placeholders in the `env` and `headers` of
    /// every server replaced: from `extra_env` first, then from the process
    /// environment.
    pub fn resolve_env_vars(
        &self,
        extra_env: &TextMap<String>,
        process_env: &TextMap<String>,
    ) -> (r: McpConfig)
        ensures
            r@ == self@.map_values(
                |s: McpServerView|
                    resolved_server(s, text_values(extra_env@), text_values(process_env@)),
            ),
    {
        let ghost e = text_values(extra_env@);
        let ghost p = text_values(process_env@);
        let ghost step = |s: McpServerView| resolved_server(s, e, p);
        let mut out: Vec<(String, McpServerConfig)> = Vec::new();
        let mut i: usize = 0;
        assert(server_views(entry_map(out@)) =~= server_views(
            entry_map(self.servers.entries@.take(0)),
        ).map_values(step));
        while i < self.servers.entries.len()
            invariant
                i <= self.servers.entries@.len(),
                e == text_values(extra_env@),
                p == text_values(process_env@),
                step == (|s: McpServerView| resolved_server(s, e, p)),
                server_views(entry_map(out@)) == server_views(
                    entry_map(self.servers.entries@.take(i as int)),
                ).map_values(step),
            decreases self.servers.entries@.len() - i,
        {
            let ghost before = out@;
            let ghost next = self.servers.entries@.take(i + 1);
            assert(next.drop_last() =~= self.servers.entries@.take(i as int));
            let server = &self.servers.entries[i].1;
            let env = match &server.env {
                Some(m) => Some(resolve_map(m, extra_env, process_env)),
                None => None,
            };
            let headers = match &server.headers {
                Some(m) => Some(resolve_map(m, extra_env, process_env)),
                None => None,
            };
            let resolved_one = McpServerConfig {
                command: clone_opt(&server.command),
                args: copy_list(&server.args),
                env,
                url: clone_opt(&server.url),
                headers,
                allow_tools: copy_list(&server.allow_tools),
                block_tools: copy_list(&server.block_tools),
            };
            assert(resolved_one@ == step(server@));
            out.push((self.servers.entries[i].0.clone(), resolved_one));
            i = i + 1;
            assert(out@.drop_last() =~= before);
            proof {
                let key = self.servers.entries@[i - 1].0@;
                let head = entry_map(next.drop_last());
                let f = |s: McpServerConfig| s@;
                lemma_map_values_insert(entry_map(before), key, out@.last().1, f);
                lemma_map_values_insert(head, key, next.last().1, f);
                lemma_map_values_insert(server_views(head), key, next.last().1@, step);
            }
        }
        assert(self.servers.entries@.take(i as int) =~= self.servers.entries@);
        McpConfig { servers: TextMap { entries: out } }
    }
}

/// Which tools of a server are exposed.
#[derive(Debug)]
pub struct ToolFilter {
    pub allow: Vec<String>,
    pub block: Vec<String>,
}

/// Whether a list of texts holds a text.
pub open spec fn listed(list: Seq<String>, name: Seq<char>) -> bool {
    exists|i: int| 0 <= i < list.len() && #[trigger] list[i]@ == name
}

/// Whether a list of texts holds a text.
pub fn is_listed(list: &Vec<String>, name: &str) -> (r: bool)
    ensures
        r == listed(list@, name@),
{
    let mut i: usize = 0;
    while i < list.len()
        invariant
            i <= list@.len(),
            forall|k: int| 0 <= k < i ==> #[trigger] list@[k]@ != name@,
        decreases list@.len() - i,
    {
        if text_eq(list[i].as_str(), name) {
            return true;
        }
        i = i + 1;
    }
    false
}

impl ToolFilter {
    /// A filter with the given lists.
    pub fn new(allow: Vec<String>, block: Vec<String>) -> (r: ToolFilter)
        ensures
            r.allow == allow,
            r.block == block,
    {
        ToolFilter { allow, block }
    }

    /// Whether a tool passes: it is not blocked, and it is allowed where an
    /// allowlist is given at all.
    pub open spec fn passes(&self, name: Seq<char>) -> bool {
        !listed(self.block@, name) && (self.allow@.len() == 0 || listed(self.allow@, name))
    }

    /// Whether the tool `tool_name` is exposed.
    pub fn allows(&self, tool_name: &str) -> (r: bool)
        ensures
            r == self.passes(tool_name@),
    {
        if is_listed(&self.block, tool_name) {
            return false;
        }
        if self.allow.len() > 0 && !is_listed(&self.allow, tool_name) {
            return false;
        }
        true
    }
}

impl Default for ToolFilter {
    /// The filter that lets every tool pass.
    fn default() -> (r: ToolFilter)
        ensures
            r.allow@.len() == 0,
            r.block@.len() == 0,
    {
        ToolFilter { allow: Vec::new(), block: Vec::new() }
    }
}

/// A blocked tool never passes, allowed or not; and without lists every tool
/// does.
pub proof fn law_blocking_wins(filter: ToolFilter, name: Seq<char>)
    ensures
        listed(filter.block@, name) ==> !filter.passes(name),
        filter.allow@.len() == 0 && filter.block@.len() == 0 ==> filter.passes(name),
{
}

/// A text without `${` has nothing to replace.
pub proof fn law_text_without_placeholders_stays(
    s: Seq<char>,
    extra: Map<Seq<char>, Seq<char>>,
    process: Map<Seq<char>, Seq<char>>,
)
    requires
        forall|i: int| 0 <= i < s.len() - 1 && s[i] == '$' ==> #[trigger] s[i + 1] != '{',
    ensures
        resolved(s, extra, process) == s,
    decreases s.len(),
{
    if s.len() > 0 {
        let rest = s.skip(1);
        assert forall|i: int| 0 <= i < rest.len() - 1 && rest[i] == '$' implies #[trigger] rest[i
            + 1] != '{' by {
            assert(s[(i + 1) + 1] == rest[i + 1]);
        }
        law_text_without_placeholders_stays(rest, extra, process);
        if s.len() >= 2 && s[0] == '$' {
            assert(s[0int + 1] != '{');
        }
        assert(seq![s[0]] + rest =~= s);
    }
}

/// A placeholder within a text is replaced, what stands in front of it stays,
/// and what follows is resolved by itself.
pub proof fn law_first_placeholder_is_replaced(
    before: Seq<char>,
    name: Seq<char>,
    after: Seq<char>,
    extra: Map<Seq<char>, Seq<char>>,
    process: Map<Seq<char>, Seq<char>>,
)
    requires
        forall|i: int|
            0 <= i < before.len() - 1 && before[i] == '$' ==> #[trigger] before[i + 1] != '{',
        !name.contains('}'),
    ensures
        resolved(before + seq!['$', '{'] + name + seq!['}'] + after, extra, process) == before
            + placeholder(name, extra, process) + resolved(after, extra, process),
    decreases before.len(),
{
    let s = before + seq!['$', '{'] + name + seq!['}'] + after;
    if before.len() == 0 {
        let rest = s.skip(2);
        let n = name.len() as int;
        assert(s[0] == '$' && s[1] == '{');
        assert(rest =~= name + seq!['}'] + after);
        assert forall|q: int| 0 <= q < n implies rest[q] != '}' by {
            assert(name.contains(name[q]));
        }
        lemma_find_char_is(rest, '}', n);
        assert(rest.take(n) =~= name);
        assert(rest.skip(n + 1) =~= after);
        assert(find_char(rest, '}') == n);
        assert(before + placeholder(name, extra, process) =~= placeholder(name, extra, process));
    } else {
        let tail = before.skip(1);
        assert forall|i: int| 0 <= i < tail.len() - 1 && tail[i] == '$' implies #[trigger] tail[i
            + 1] != '{' by {
            assert(before[(i + 1) + 1] == tail[i + 1]);
        }
        law_first_placeholder_is_replaced(tail, name, after, extra, process);
        assert(s.skip(1) =~= tail + seq!['$', '{'] + name + seq!['}'] + after);
        if before.len() >= 2 && before[0] == '$' {
            assert(before[0int + 1] != '{');
            assert(s[1] == before[1]);
        } else if before.len() == 1 {
            assert(s[1] == '$');
        }
        assert(s[0] == before[0]);
        assert(seq![s[0]] + (tail + placeholder(name, extra, process) + resolved(
            after,
            extra,
            process,
        )) =~= before + placeholder(name, extra, process) + resolved(after, extra, process));
    }
}

/// A placeholder is replaced by the value of the given environment, whatever
/// the process's environment holds.
pub proof fn law_given_environment_wins(
    name: Seq<char>,
    extra: Map<Seq<char>, Seq<char>>,
    process: Map<Seq<char>, Seq<char>>,
)
    requires
        name.len() > 0,
        !name.contains('}'),
        extra.dom().contains(name),
    ensures
        resolved(seq!['$', '{'] + name + seq!['}'], extra, process) == extra[name],
{
    lemma_lone_placeholder(name, extra, process);
}

/// A placeholder for a name that neither environment holds stays as it is.
pub proof fn law_unknown_placeholder_stays(
    name: Seq<char>,
    extra: Map<Seq<char>, Seq<char>>,
    process: Map<Seq<char>, Seq<char>>,
)
    requires
        !name.contains('}'),
        !extra.dom().contains(name),
        !process.dom().contains(name),
    ensures
        resolved(seq!['$', '{'] + name + seq!['}'], extra, process) == seq!['$', '{'] + name
            + seq!['}'],
{
    lemma_lone_placeholder(name, extra, process);
}

proof fn lemma_lone_placeholder(
    name: Seq<char>,
    extra: Map<Seq<char>, Seq<char>>,
    process: Map<Seq<char>, Seq<char>>,
)
    requires
        !name.contains('}'),
    ensures
        resolved(seq!['$', '{'] + name + seq!['}'], extra, process) == placeholder(
            name,
            extra,
            process,
        ),
{
    let none = Seq::<char>::empty();
    law_first_placeholder_is_replaced(none, name, none, extra, process);
    assert(none + seq!['$', '{'] + name + seq!['}'] + none =~= seq!['$', '{'] + name + seq!['}']);
    assert(none + placeholder(name, extra, process) + resolved(none, extra, process)
        =~= placeholder(name, extra, process));
}

} // verus!
