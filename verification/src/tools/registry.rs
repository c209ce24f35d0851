//! The registry of tool scripts the assistant may call.
//!
//! A tool is a shell script whose leading comment lines describe it:
//! `# @name`, `# @desc` and `# @session` (a comma-separated list of the
//! session types it serves, `all` by default).

use vstd::prelude::*;
use crate::text::{
    chars_of, contains_seq, occurs_at, copy_range, eq_chars, eq_str, lex_less, lex_lt, lemma_lex_irreflexive,
    lemma_lex_total, lemma_lex_transitive, lines_of, split_chars, split_lines, split_on,
    starts_with, starts_with_spec, string_from, string_views, trim, trim_all, trim_chars, trim_each,
    views,
};
use crate::paths::{extension, file_stem, path_extension, path_stem};

verus! {

/// A tool script: its name, description, path and the session types it serves.
#[derive(Debug)]
pub struct ToolDef {
    pub name: String,
    pub desc: String,
    pub script_path: String,
    pub session_types: Vec<String>,
}

/// A tool as a value: name, description, path, session types.
pub type ToolInfo = (Seq<char>, Seq<char>, Seq<char>, Seq<Seq<char>>);

impl View for ToolDef {
    type V = ToolInfo;

    open spec fn view(&self) -> ToolInfo {
        (self.name@, self.desc@, self.script_path@, string_views(self.session_types@))
    }
}

/// The registered tools, each under its own name.
#[derive(Debug)]
pub struct ToolRegistry {
    tools: Vec<ToolDef>,
}

/// A copy of a list of strings.
pub fn copy_strings(v: &Vec<String>) -> (r: Vec<String>)
    ensures
        string_views(r@) == string_views(v@),
{
    let mut r: Vec<String> = Vec::new();
    let mut i: usize = 0;
    while i < v.len()
        invariant
            0 <= i <= v@.len(),
            string_views(r@) == string_views(v@).take(i as int),
        decreases v@.len() - i,
    {
        let x = v[i].clone();
        proof {
            assert(string_views(v@)[i as int] == v@[i as int]@);
            assert(string_views(r@.push(x)) =~= string_views(r@).push(x@));
            assert(string_views(v@).take(i + 1) =~= string_views(v@).take(i as int).push(string_views(v@)[i as int]));
        }
        r.push(x);
        i = i + 1;
    }
    assert(string_views(v@).take(v@.len() as int) =~= string_views(v@));
    r
}

impl Clone for ToolDef {
    fn clone(&self) -> (r: Self)
        ensures
            r@ == self@,
    {
        ToolDef {
            name: self.name.clone(),
            desc: self.desc.clone(),
            script_path: self.script_path.clone(),
            session_types: copy_strings(&self.session_types),
        }
    }
}

impl Clone for ToolRegistry {
    fn clone(&self) -> (r: Self)
        ensures
            r.tools_view() == self.tools_view(),
    {
        proof {
            use_type_invariant(self);
        }
        let mut v: Vec<ToolDef> = Vec::new();
        let mut i: usize = 0;
        while i < self.tools.len()
            invariant
                0 <= i <= self.tools@.len(),
                names_distinct(self.tools@),
                v@.len() == i,
                forall|j: int| 0 <= j < i ==> #[trigger] v@[j]@ == self.tools@[j]@,
            decreases self.tools@.len() - i,
        {
            let t = self.tools[i].clone();
            v.push(t);
            i = i + 1;
        }
        proof {
            let s = self.tools@;
            assert(names_distinct(v@)) by {
                assert forall|a: int, b: int| 0 <= a < v@.len() && 0 <= b < v@.len() && a != b implies v@[a].name@ != v@[b].name@ by {
                    assert(v@[a]@ == s[a]@ && v@[b]@ == s[b]@);
                }
            }
            let m1 = tool_map(v@);
            let m2 = tool_map(s);
            assert forall|k: Seq<char>| m1.contains_key(k) <==> m2.contains_key(k) by {
                if has_name(v@, k) {
                    let j = choose|j: int| 0 <= j < v@.len() && v@[j].name@ == k;
                    assert(v@[j]@ == s[j]@);
                }
                if has_name(s, k) {
                    let j = choose|j: int| 0 <= j < s.len() && s[j].name@ == k;
                    assert(v@[j]@ == s[j]@);
                }
            }
            assert forall|k: Seq<char>| m1.contains_key(k) implies m1[k] == m2[k] by {
                let j = choose|j: int| 0 <= j < v@.len() && v@[j].name@ == k;
                let j2 = choose|j: int| 0 <= j < s.len() && s[j].name@ == k;
                assert(v@[j]@ == s[j]@);
                assert(v@[j2]@ == s[j2]@);
                assert(j == j2);
            }
            assert(m1 =~= m2);
        }
        ToolRegistry { tools: v }
    }
}

/// Whether some tool in `s` is named `k`.
pub open spec fn has_name(s: Seq<ToolDef>, k: Seq<char>) -> bool {
    exists|i: int| 0 <= i < s.len() && s[i].name@ == k
}

/// The tools of `s` by name.
pub open spec fn tool_map(s: Seq<ToolDef>) -> Map<Seq<char>, ToolInfo> {
    Map::new(
        |k: Seq<char>| has_name(s, k),
        |k: Seq<char>| s[choose|i: int| 0 <= i < s.len() && s[i].name@ == k]@,
    )
}

/// No two tools of `s` share a name.
pub open spec fn names_distinct(s: Seq<ToolDef>) -> bool {
    forall|i: int, j: int| 0 <= i < s.len() && 0 <= j < s.len() && i != j ==> s[i].name@ != s[j].name@
}

/// Whether a tool serves sessions of type `st`.
pub open spec fn serves(t: ToolInfo, st: Seq<char>) -> bool {
    t.3.contains("all"@) || t.3.contains(st)
}

/// `l` lists, in strictly increasing order of name, exactly the tools of `m` that serve `st`.
pub open spec fn is_listing(m: Map<Seq<char>, ToolInfo>, st: Seq<char>, l: Seq<ToolInfo>) -> bool {
    &&& forall|i: int, j: int| 0 <= i < j < l.len() ==> lex_lt(l[i].0, l[j].0)
    &&& forall|i: int| 0 <= i < l.len() ==> m.contains_key(l[i].0) && m[l[i].0] == l[i] && serves(l[i], st)
    &&& forall|k: Seq<char>| m.contains_key(k) && serves(m[k], st) ==> exists|i: int| 0 <= i < l.len() && l[i].0 == k
}

/// The views of a sequence of tool references.
pub open spec fn ref_views(v: Seq<&ToolDef>) -> Seq<ToolInfo> {
    v.map_values(|t: &ToolDef| t@)
}

/// The preamble of the tool section of a system prompt.
pub const TOOLS_PREAMBLE: &'static str = "AVAILABLE TOOLS (CLI scripts):\n\nTo use a tool, output a tool invocation block exactly like this:\n<tool>\nscript_name --arg1 value1 --arg2 \"value with spaces\"\n</tool>\n\nThe tool output will be fed back to you. Use tools when you need to search, read files, execute commands, etc.\n\n";

/// One tool's entry in the prompt.
pub open spec fn tool_entry(t: ToolInfo) -> Seq<char> {
    "## "@ + t.0 + "\n"@ + t.1 + "\nPath: "@ + t.2 + "\n\n"@
}

/// The entries of a list of tools.
pub open spec fn tool_entries(l: Seq<ToolInfo>) -> Seq<char>
    decreases l.len(),
{
    if l.len() == 0 {
        seq![]
    } else {
        tool_entry(l[0]) + tool_entries(l.skip(1))
    }
}

/// The tool section of a system prompt: empty when no tool is listed.
pub open spec fn tools_prompt(l: Seq<ToolInfo>) -> Seq<char> {
    if l.len() == 0 {
        seq![]
    } else {
        TOOLS_PREAMBLE@ + tool_entries(l)
    }
}

/// Each listed tool's entry occurs in the entries of the list.
proof fn lemma_entry_in_entries(l: Seq<ToolInfo>, i: int)
    requires
        0 <= i < l.len(),
    ensures
        contains_seq(tool_entries(l), tool_entry(l[i])),
    decreases l.len(),
{
    let e = tool_entry(l[i]);
    if i == 0 {
        assert(tool_entries(l).subrange(0, e.len() as int) =~= e);
        assert(occurs_at(tool_entries(l), e, 0));
    } else {
        let rest = l.skip(1);
        assert(rest[i - 1] == l[i]);
        lemma_entry_in_entries(rest, i - 1);
        let j = choose|j: int| occurs_at(tool_entries(rest), e, j);
        let h = tool_entry(l[0]);
        assert(tool_entries(l) == h + tool_entries(rest));
        assert(tool_entries(l).subrange(h.len() + j, h.len() + j + e.len()) =~= tool_entries(rest).subrange(j, j + e.len()));
        assert(occurs_at(tool_entries(l), e, h.len() + j));
    }
}

/// The tool section offers every tool that serves the session type: for
/// each such tool it holds `## `, the tool's name, its description and
/// `Path: ` with its script's path.
pub proof fn law_prompt_offers_every_tool(m: Map<Seq<char>, ToolInfo>, st: Seq<char>, l: Seq<ToolInfo>, name: Seq<char>)
    requires
        is_listing(m, st, l),
        m.contains_key(name),
        serves(m[name], st),
    ensures
        contains_seq(tools_prompt(l),
            "## "@ + name + "\n"@ + m[name].1 + "\nPath: "@ + m[name].2 + "\n\n"@),
        starts_with_spec(tools_prompt(l), TOOLS_PREAMBLE@),
{
    let i = choose|i: int| 0 <= i < l.len() && l[i].0 == name;
    assert(l[i] == m[name]);
    lemma_entry_in_entries(l, i);
    let e = tool_entry(l[i]);
    let j = choose|j: int| occurs_at(tool_entries(l), e, j);
    let p = TOOLS_PREAMBLE@;
    assert(tools_prompt(l) == p + tool_entries(l));
    assert(tools_prompt(l).subrange(p.len() + j, p.len() + j + e.len()) =~= tool_entries(l).subrange(j, j + e.len()));
    assert(occurs_at(tools_prompt(l), e, p.len() + j));
    assert(tools_prompt(l).take(p.len() as int) =~= p);
}

proof fn lemma_entries_flatten(l: Seq<ToolInfo>)
    ensures
        tool_entries(l) == l.map_values(|t: ToolInfo| tool_entry(t)).flatten(),
    decreases l.len(),
{
    let m = l.map_values(|t: ToolInfo| tool_entry(t));
    if l.len() > 0 {
        lemma_entries_flatten(l.skip(1));
        assert(m.drop_first() =~= l.skip(1).map_values(|t: ToolInfo| tool_entry(t)));
    } else {
        assert(m.len() == 0);
    }
}

/// The tool section is the preamble followed by one entry per listed tool,
/// in the order of the list (by name), and nothing else.
pub proof fn law_prompt_is_the_listed_entries(l: Seq<ToolInfo>)
    requires
        l.len() > 0,
    ensures
        tools_prompt(l) == TOOLS_PREAMBLE@ + l.map_values(|t: ToolInfo| tool_entry(t)).flatten(),
{
    lemma_entries_flatten(l);
}

/// With no tool serving the session type, the tool section is empty.
pub proof fn law_prompt_empty_without_tools(m: Map<Seq<char>, ToolInfo>, st: Seq<char>, l: Seq<ToolInfo>)
    requires
        is_listing(m, st, l),
        forall|k: Seq<char>| m.contains_key(k) ==> !serves(#[trigger] m[k], st),
    ensures
        tools_prompt(l).len() == 0,
{
    if l.len() > 0 {
        assert(m.contains_key(l[0].0) && m[l[0].0] == l[0] && serves(l[0], st));
    }
}

impl ToolRegistry {
    #[verifier::type_invariant]
    spec fn well_formed(self) -> bool {
        names_distinct(self.tools@)
    }

    /// The tools by name.
    pub closed spec fn tools_view(&self) -> Map<Seq<char>, ToolInfo> {
        tool_map(self.tools@)
    }

    /// An empty registry.
    pub fn new() -> (r: Self)
        ensures
            r.tools_view() == Map::<Seq<char>, ToolInfo>::empty(),
    {
        let r = ToolRegistry { tools: Vec::new() };
        assert(r.tools_view() =~= Map::<Seq<char>, ToolInfo>::empty());
        r
    }

    /// The index of the tool named `name`.
    fn index_of(&self, name: &str) -> (r: Option<usize>)
        ensures
            r matches Some(i) ==> i < self.tools@.len() && self.tools@[i as int].name@ == name@,
            r is None ==> !has_name(self.tools@, name@),
    {
        let mut i: usize = 0;
        while i < self.tools.len()
            invariant
                0 <= i <= self.tools@.len(),
                forall|j: int| 0 <= j < i ==> self.tools@[j].name@ != name@,
            decreases self.tools@.len() - i,
        {
            if eq_str(self.tools[i].name.as_str(), name) {
                return Some(i);
            }
            i = i + 1;
        }
        None
    }

    /// The tool named `name`, if there is one.
    pub fn get(&self, name: &str) -> (r: Option<&ToolDef>)
        ensures
            r is Some <==> self.tools_view().contains_key(name@),
            r matches Some(t) ==> t@ == self.tools_view()[name@],
            r matches Some(t) ==> t.name@ == name@,
    {
        proof {
            use_type_invariant(self);
        }
        match self.index_of(name) {
            Some(i) => {
                proof {
                    let s = self.tools@;
                    let k = choose|j: int| 0 <= j < s.len() && s[j].name@ == name@;
                    assert(k == i);
                }
                Some(&self.tools[i])
            },
            None => None,
        }
    }

    /// Register a tool, replacing any tool of the same name.
    pub fn insert(&mut self, tool: ToolDef)
        ensures
            final(self).tools_view() == old(self).tools_view().insert(tool.name@, tool@),
    {
        proof {
            use_type_invariant(&*self);
        }
        let ghost old_s = self.tools@;
        let ghost t = tool@;
        let found = self.index_of(tool.name.as_str());
        let mut next: Vec<ToolDef> = Vec::new();
        std::mem::swap(&mut next, &mut self.tools);
        assert(next@ == old_s);
        let ghost widx: int;
        match found {
            Some(i) => {
                next.set(i, tool);
                proof {
                    widx = i as int;
                }
            },
            None => {
                next.push(tool);
                proof {
                    widx = old_s.len() as int;
                }
            },
        }
        proof {
            lemma_insert_map(old_s, next@, t, widx);
        }
        self.tools = next;
    }

    /// The tools that serve sessions of type `session_type`, in order of name.
    pub fn list_for_session(&self, session_type: &str) -> (r: Vec<&ToolDef>)
        ensures
            is_listing(self.tools_view(), session_type@, ref_views(r@)),
    {
        proof {
            use_type_invariant(self);
        }
        let ghost s = self.tools@;
        let ghost st = session_type@;
        let mut out: Vec<&ToolDef> = Vec::new();
        let mut i: usize = 0;
        while i < self.tools.len()
            invariant
                0 <= i <= s.len(),
                s == self.tools@,
                st == session_type@,
                names_distinct(s),
                sorted_names(ref_views(out@)),
                drawn_from(ref_views(out@), s, i as int, st),
                covers(ref_views(out@), s, i as int, st),
            decreases s.len() - i,
        {
            let t = &self.tools[i];
            if serves_exec(t, session_type) {
                proof {
                    lemma_fresh_name(ref_views(out@), s, i as int, st);
                }
                let pos = insertion_point(&out, t);
                let ghost before = out@;
                out.insert(pos, t);
                proof {
                    assert(ref_views(out@) =~= ref_views(before).insert(pos as int, t@));
                    lemma_insert_sorted(ref_views(before), pos as int, t@, s, i as int, st);
                }
            } else {
                proof {
                    lemma_skip_tool(ref_views(out@), s, i as int, st);
                }
            }
            i = i + 1;
        }
        proof {
            lemma_listing(ref_views(out@), s, st);
        }
        out
    }

    /// The tool section of the system prompt for sessions of type `session_type`.
    pub fn build_system_prompt(&self, session_type: &str) -> (r: String)
        ensures
            exists|l: Seq<ToolInfo>| is_listing(self.tools_view(), session_type@, l) && r@ == tools_prompt(l),
    {
        let tools = self.list_for_session(session_type);
        let ghost l = ref_views(tools@);
        if tools.len() == 0 {
            let r = String::new();
            assert(is_listing(self.tools_view(), session_type@, l) && r@ == tools_prompt(l));
            return r;
        }
        let mut s = String::new();
        s.append(TOOLS_PREAMBLE);
        let mut i: usize = 0;
        assert(l.skip(0) =~= l);
        while i < tools.len()
            invariant
                0 <= i <= tools@.len(),
                l == ref_views(tools@),
                s@ + tool_entries(l.skip(i as int)) == TOOLS_PREAMBLE@ + tool_entries(l),
            decreases tools@.len() - i,
        {
            let t = tools[i];
            proof {
                assert(l.skip(i as int)[0] == t@);
                assert(l.skip(i as int).skip(1) =~= l.skip(i + 1));
            }
            let ghost before = s@;
            s.append("## ");
            s.append(t.name.as_str());
            s.append("\n");
            s.append(t.desc.as_str());
            s.append("\nPath: ");
            s.append(t.script_path.as_str());
            s.append("\n\n");
            proof {
                assert(s@ == before + tool_entry(t@));
                assert(before + tool_entries(l.skip(i as int)) =~= s@ + tool_entries(l.skip(i + 1)));
            }
            i = i + 1;
        }
        assert(l.skip(i as int).len() == 0);
        assert(s@ =~= s@ + tool_entries(l.skip(i as int)));
        assert(is_listing(self.tools_view(), session_type@, l) && s@ == tools_prompt(l));
        s
    }

    /// Whether `path` names a tool script: its extension is `sh`.
    pub fn is_script_path(path: &str) -> (b: bool)
        ensures
            b == (path_extension(path@) == Some("sh"@)),
    {
        match extension(path) {
            Some(e) => eq_str(e.as_str(), "sh"),
            None => false,
        }
    }

    /// Register the script at `path`, given its contents (`None` when it could
    /// not be read): a script whose extension is `sh` and that describes a tool
    /// is added under the tool's name.
    pub fn add_script(&mut self, path: &str, content: Option<&str>)
        ensures
            final(self).tools_view() == after_script(old(self).tools_view(), path@, opt_str(content)),
    {
        if Self::is_script_path(path) {
            if let Some(c) = content {
                if let Some(tool) = parse_script(path, c) {
                    self.insert(tool);
                }
            }
        }
    }

    /// Register the scripts of a directory, in the order listed: each is a
    /// path and its contents (`None` when it could not be read).
    pub fn load(&mut self, scripts: &Vec<(String, Option<String>)>)
        ensures
            final(self).tools_view() == after_scripts(old(self).tools_view(), script_views(scripts@)),
    {
        let ghost sv = script_views(scripts@);
        let mut i: usize = 0;
        while i < scripts.len()
            invariant
                0 <= i <= scripts@.len(),
                sv == script_views(scripts@),
                self.tools_view() == after_scripts(old(self).tools_view(), sv.take(i as int)),
            decreases scripts@.len() - i,
        {
            let (p, c) = &scripts[i];
            let content = match c {
                Some(x) => Some(x.as_str()),
                None => None,
            };
            assert(opt_str(content) == sv[i as int].1);
            self.add_script(p.as_str(), content);
            assert(sv.take(i + 1).drop_last() =~= sv.take(i as int));
            i = i + 1;
        }
        assert(sv.take(scripts@.len() as int) =~= sv);
    }
}

/// The view of an optional string slice.
pub open spec fn opt_str(o: Option<&str>) -> Option<Seq<char>> {
    match o {
        Some(s) => Some(s@),
        None => None,
    }
}

/// Listed scripts as values: each path and its contents, if read.
pub open spec fn script_views(v: Seq<(String, Option<String>)>) -> Seq<(Seq<char>, Option<Seq<char>>)> {
    v.map_values(|x: (String, Option<String>)| (x.0@, match x.1 { Some(c) => Some(c@), None => None }))
}

/// The tools after registering the script at `path` with contents `content`:
/// a script whose extension is `sh` and that describes a tool is added under
/// the tool's name.
pub open spec fn after_script(m: Map<Seq<char>, ToolInfo>, path: Seq<char>, content: Option<Seq<char>>) -> Map<Seq<char>, ToolInfo> {
    if path_extension(path) == Some("sh"@) && content is Some && parse_script_spec(path, content->0) is Some {
        let t = parse_script_spec(path, content->0)->0;
        m.insert(t.0, t)
    } else {
        m
    }
}

/// The tools after registering each script in turn.
pub open spec fn after_scripts(m: Map<Seq<char>, ToolInfo>, s: Seq<(Seq<char>, Option<Seq<char>>)>) -> Map<Seq<char>, ToolInfo>
    decreases s.len(),
{
    if s.len() == 0 {
        m
    } else {
        after_script(after_scripts(m, s.drop_last()), s.last().0, s.last().1)
    }
}

/// Replacing the tool of the same name, or appending, inserts into the map.
proof fn lemma_insert_map(old_s: Seq<ToolDef>, s: Seq<ToolDef>, t: ToolInfo, w: int)
    requires
        names_distinct(old_s),
        0 <= w <= old_s.len(),
        w < old_s.len() ==> old_s[w].name@ == t.0 && s == old_s.update(w, s[w]),
        w == old_s.len() ==> !has_name(old_s, t.0) && s == old_s.push(s[w]),
        s[w]@ == t,
    ensures
        names_distinct(s),
        tool_map(s) == tool_map(old_s).insert(t.0, t),
{
    assert(s.len() == old_s.len() || s.len() == old_s.len() + 1);
    assert forall|a: int, b: int| 0 <= a < s.len() && 0 <= b < s.len() && a != b implies s[a].name@ != s[b].name@ by {
        if a != w && b != w {
            assert(s[a] == old_s[a] && s[b] == old_s[b]);
        } else if a == w {
            assert(s[b] == old_s[b]);
            if w == old_s.len() {
                assert(old_s[b].name@ != t.0);
            }
        } else {
            assert(s[a] == old_s[a]);
            if w == old_s.len() {
                assert(old_s[a].name@ != t.0);
            }
        }
    }
    let m = tool_map(s);
    let om = tool_map(old_s).insert(t.0, t);
    assert forall|k: Seq<char>| m.contains_key(k) <==> om.contains_key(k) by {
        if has_name(s, k) {
            let j = choose|j: int| 0 <= j < s.len() && s[j].name@ == k;
            if k != t.0 {
                assert(j != w);
                assert(old_s[j].name@ == k);
            }
        }
        if has_name(old_s, k) && k != t.0 {
            let j = choose|j: int| 0 <= j < old_s.len() && old_s[j].name@ == k;
            assert(j != w);
            assert(s[j].name@ == k);
        }
        if k == t.0 {
            assert(s[w].name@ == k);
        }
    }
    assert forall|k: Seq<char>| m.contains_key(k) implies m[k] == om[k] by {
        let j = choose|j: int| 0 <= j < s.len() && s[j].name@ == k;
        if k != t.0 {
            let jo = choose|j: int| 0 <= j < old_s.len() && old_s[j].name@ == k;
            assert(jo != w);
            assert(s[jo].name@ == k);
            assert(j == jo);
        } else {
            assert(s[w].name@ == k);
            assert(j == w);
        }
    }
    assert(m =~= om);
}

/// Names strictly increase along `v`.
pub open spec fn sorted_names(v: Seq<ToolInfo>) -> bool {
    forall|a: int, b: int| 0 <= a < b < v.len() ==> lex_lt(v[a].0, v[b].0)
}

/// Every element of `v` is one of the first `i` tools of `s` and serves `st`.
pub open spec fn drawn_from(v: Seq<ToolInfo>, s: Seq<ToolDef>, i: int, st: Seq<char>) -> bool {
    forall|a: int| #![trigger v[a]] 0 <= a < v.len() ==> exists|j: int| 0 <= j < i && #[trigger] s[j]@ == v[a] && serves(v[a], st)
}

/// Every one of the first `i` tools of `s` that serves `st` has its name in `v`.
pub open spec fn covers(v: Seq<ToolInfo>, s: Seq<ToolDef>, i: int, st: Seq<char>) -> bool {
    forall|j: int| #![trigger s[j]] 0 <= j < i && serves(s[j]@, st) ==> exists|a: int| 0 <= a < v.len() && #[trigger] v[a].0 == s[j].name@
}

proof fn lemma_fresh_name(v: Seq<ToolInfo>, s: Seq<ToolDef>, i: int, st: Seq<char>)
    requires
        0 <= i < s.len(),
        names_distinct(s),
        drawn_from(v, s, i, st),
    ensures
        forall|a: int| 0 <= a < v.len() ==> v[a].0 != s[i].name@,
{
    assert forall|a: int| 0 <= a < v.len() implies v[a].0 != s[i].name@ by {
        let j = choose|j: int| 0 <= j < i && #[trigger] s[j]@ == v[a] && serves(v[a], st);
        assert(s[j].name@ == v[a].0);
    }
}

proof fn lemma_skip_tool(v: Seq<ToolInfo>, s: Seq<ToolDef>, i: int, st: Seq<char>)
    requires
        0 <= i < s.len(),
        !serves(s[i]@, st),
        drawn_from(v, s, i, st),
        covers(v, s, i, st),
    ensures
        drawn_from(v, s, i + 1, st),
        covers(v, s, i + 1, st),
{
    assert forall|a: int| #![trigger v[a]] 0 <= a < v.len() implies exists|j: int| 0 <= j < i + 1 && #[trigger] s[j]@ == v[a] && serves(v[a], st) by {
        let j = choose|j: int| 0 <= j < i && #[trigger] s[j]@ == v[a] && serves(v[a], st);
    }
}

proof fn lemma_insert_sorted(v: Seq<ToolInfo>, pos: int, x: ToolInfo, s: Seq<ToolDef>, i: int, st: Seq<char>)
    requires
        0 <= i < s.len(),
        0 <= pos <= v.len(),
        x == s[i]@,
        serves(x, st),
        sorted_names(v),
        forall|a: int| 0 <= a < pos ==> lex_lt(v[a].0, x.0),
        forall|a: int| pos <= a < v.len() ==> lex_lt(x.0, v[a].0),
        drawn_from(v, s, i, st),
        covers(v, s, i, st),
    ensures
        sorted_names(v.insert(pos, x)),
        drawn_from(v.insert(pos, x), s, i + 1, st),
        covers(v.insert(pos, x), s, i + 1, st),
{
    lemma_insert_keeps_order(v, pos, x);
    lemma_insert_drawn(v, pos, x, s, i, st);
    lemma_insert_covers(v, pos, x, s, i, st);
}

proof fn lemma_insert_keeps_order(v: Seq<ToolInfo>, pos: int, x: ToolInfo)
    requires
        0 <= pos <= v.len(),
        sorted_names(v),
        forall|a: int| 0 <= a < pos ==> lex_lt(v[a].0, x.0),
        forall|a: int| pos <= a < v.len() ==> lex_lt(x.0, v[a].0),
    ensures
        sorted_names(v.insert(pos, x)),
{
    let w = v.insert(pos, x);
    assert forall|a: int, b: int| 0 <= a < b < w.len() implies lex_lt(w[a].0, w[b].0) by {
        if b < pos {
            assert(w[a] == v[a] && w[b] == v[b]);
        } else if a < pos && b == pos {
            assert(w[a] == v[a]);
        } else if a < pos {
            assert(w[a] == v[a]);
            assert(w[b] == v[b - 1]);
            lemma_lex_transitive(w[a].0, x.0, w[b].0);
        } else if a == pos {
            assert(w[b] == v[b - 1]);
        } else {
            assert(w[a] == v[a - 1] && w[b] == v[b - 1]);
        }
    }
}

proof fn lemma_insert_drawn(v: Seq<ToolInfo>, pos: int, x: ToolInfo, s: Seq<ToolDef>, i: int, st: Seq<char>)
    requires
        0 <= i < s.len(),
        0 <= pos <= v.len(),
        x == s[i]@,
        serves(x, st),
        drawn_from(v, s, i, st),
    ensures
        drawn_from(v.insert(pos, x), s, i + 1, st),
{
    let w = v.insert(pos, x);
    assert forall|a: int| #![trigger w[a]] 0 <= a < w.len() implies exists|j: int| 0 <= j < i + 1 && #[trigger] s[j]@ == w[a] && serves(w[a], st) by {
        if a < pos {
            assert(w[a] == v[a]);
            let j = choose|j: int| 0 <= j < i && #[trigger] s[j]@ == v[a] && serves(v[a], st);
        } else if a == pos {
            assert(s[i]@ == w[a]);
        } else {
            assert(w[a] == v[a - 1]);
            let j = choose|j: int| 0 <= j < i && #[trigger] s[j]@ == v[a - 1] && serves(v[a - 1], st);
        }
    }
}

proof fn lemma_insert_covers(v: Seq<ToolInfo>, pos: int, x: ToolInfo, s: Seq<ToolDef>, i: int, st: Seq<char>)
    requires
        0 <= i < s.len(),
        0 <= pos <= v.len(),
        x == s[i]@,
        covers(v, s, i, st),
    ensures
        covers(v.insert(pos, x), s, i + 1, st),
{
    let w = v.insert(pos, x);
    assert forall|j: int| #![trigger s[j]] 0 <= j < i + 1 && serves(s[j]@, st) implies exists|a: int| 0 <= a < w.len() && #[trigger] w[a].0 == s[j].name@ by {
        if j < i {
            let a = choose|a: int| 0 <= a < v.len() && #[trigger] v[a].0 == s[j].name@;
            if a < pos {
                assert(w[a] == v[a]);
            } else {
                assert(w[a + 1] == v[a]);
            }
        } else {
            assert(w[pos] == x);
            assert(w[pos].0 == s[j].name@);
        }
    }
}

proof fn lemma_listing(v: Seq<ToolInfo>, s: Seq<ToolDef>, st: Seq<char>)
    requires
        names_distinct(s),
        sorted_names(v),
        drawn_from(v, s, s.len() as int, st),
        covers(v, s, s.len() as int, st),
    ensures
        is_listing(tool_map(s), st, v),
{
    let m = tool_map(s);
    assert forall|a: int| 0 <= a < v.len() implies m.contains_key(v[a].0) && m[v[a].0] == v[a] && serves(v[a], st) by {
        let j = choose|j: int| 0 <= j < s.len() && #[trigger] s[j]@ == v[a] && serves(v[a], st);
        assert(s[j].name@ == v[a].0);
        assert(has_name(s, v[a].0));
        let c = choose|c: int| 0 <= c < s.len() && s[c].name@ == v[a].0;
        assert(c == j);
    }
    assert forall|k: Seq<char>| m.contains_key(k) && serves(m[k], st) implies exists|a: int| 0 <= a < v.len() && v[a].0 == k by {
        let c = choose|c: int| 0 <= c < s.len() && s[c].name@ == k;
        assert(serves(s[c]@, st));
        let a = choose|a: int| 0 <= a < v.len() && #[trigger] v[a].0 == s[c].name@;
    }
}

/// Whether `t` serves sessions of type `st`.
fn serves_exec(t: &ToolDef, st: &str) -> (b: bool)
    ensures
        b == serves(t@, st@),
{
    let mut i: usize = 0;
    let mut found = false;
    let ghost v = string_views(t.session_types@);
    while i < t.session_types.len()
        invariant
            0 <= i <= t.session_types@.len(),
            v == string_views(t.session_types@),
            found == exists|j: int| 0 <= j < i && (v[j] == "all"@ || v[j] == st@),
        decreases t.session_types@.len() - i,
    {
        let x = t.session_types[i].as_str();
        assert(v[i as int] == x@);
        if eq_str(x, "all") || eq_str(x, st) {
            found = true;
        }
        i = i + 1;
    }
    proof {
        if found {
            let j = choose|j: int| 0 <= j < i && (v[j] == "all"@ || v[j] == st@);
            if v[j] != "all"@ {
                assert(v.contains(st@));
            }
        } else {
            if v.contains("all"@) {
                let j = choose|j: int| 0 <= j < v.len() && v[j] == "all"@;
                assert(false);
            }
            if v.contains(st@) {
                let j = choose|j: int| 0 <= j < v.len() && v[j] == st@;
                assert(false);
            }
        }
    }
    found
}

/// Where `t` goes in a list sorted by name that does not hold its name.
fn insertion_point(out: &Vec<&ToolDef>, t: &ToolDef) -> (p: usize)
    requires
        sorted_names(ref_views(out@)),
        forall|a: int| 0 <= a < out@.len() ==> ref_views(out@)[a].0 != t.name@,
    ensures
        p <= out@.len(),
        forall|a: int| 0 <= a < p ==> lex_lt(ref_views(out@)[a].0, t.name@),
        forall|a: int| p <= a < out@.len() ==> lex_lt(t.name@, ref_views(out@)[a].0),
{
    let ghost v = ref_views(out@);
    assert(forall|a: int| 0 <= a < out@.len() ==> v[a].0 == out@[a].name@);
    let tn = chars_of(t.name.as_str());
    let mut p: usize = 0;
    while p < out.len()
        invariant
            0 <= p <= out@.len(),
            tn@ == t.name@,
            v == ref_views(out@),
            forall|a: int| 0 <= a < out@.len() ==> v[a].0 == out@[a].name@,
            sorted_names(v),
            forall|a: int| 0 <= a < out@.len() ==> v[a].0 != t.name@,
            forall|a: int| 0 <= a < p ==> lex_lt(v[a].0, t.name@),
        decreases out@.len() - p,
    {
        let on = chars_of(out[p].name.as_str());
        if lex_less(&tn, &on) {
            proof {
                assert forall|a: int| p <= a < out@.len() implies lex_lt(t.name@, v[a].0) by {
                    if a > p {
                        lemma_lex_transitive(t.name@, v[p as int].0, v[a].0);
                    }
                }
            }
            return p;
        }
        proof {
            lemma_lex_total(v[p as int].0, t.name@);
        }
        p = p + 1;
    }
    p
}

/// What a script's header says: its name, description and session types.
pub type Header = (Seq<char>, Seq<char>, Seq<Seq<char>>);

/// Read the header comment lines; the first line that is neither a comment
/// nor empty ends the header.
pub open spec fn scan_header(ls: Seq<Seq<char>>, h: Header) -> Header
    decreases ls.len(),
{
    if ls.len() == 0 {
        h
    } else {
        let t = trim(ls[0]);
        if starts_with_spec(t, "# @name "@) {
            scan_header(ls.skip(1), (trim(t.skip("# @name "@.len() as int)), h.1, h.2))
        } else if starts_with_spec(t, "# @desc "@) {
            scan_header(ls.skip(1), (h.0, trim(t.skip("# @desc "@.len() as int)), h.2))
        } else if starts_with_spec(t, "# @session "@) {
            scan_header(ls.skip(1), (h.0, h.1, trim_all(split_on(trim(t.skip("# @session "@.len() as int)), ','))))
        } else if !starts_with_spec(t, "#"@) && t.len() > 0 {
            h
        } else {
            scan_header(ls.skip(1), h)
        }
    }
}

/// The tool a script describes: a missing name is the file's stem (no tool if
/// the path has none), a missing description is `Execute the <name> script`.
pub open spec fn parse_script_spec(path: Seq<char>, content: Seq<char>) -> Option<ToolInfo> {
    let h = scan_header(lines_of(content), (seq![], seq![], seq!["all"@]));
    let name = if h.0.len() == 0 { path_stem(path) } else { Some(h.0) };
    match name {
        Some(n) => Some((n, if h.1.len() == 0 { "Execute the "@ + n + " script"@ } else { h.1 }, path, h.2)),
        None => None,
    }
}

proof fn lemma_scan_unfold(ls: Seq<Seq<char>>, i: int, h: Header)
    requires
        0 <= i < ls.len(),
    ensures
        ({
            let t = trim(ls[i]);
            scan_header(ls.skip(i), h) == if starts_with_spec(t, "# @name "@) {
                scan_header(ls.skip(i + 1), (trim(t.skip("# @name "@.len() as int)), h.1, h.2))
            } else if starts_with_spec(t, "# @desc "@) {
                scan_header(ls.skip(i + 1), (h.0, trim(t.skip("# @desc "@.len() as int)), h.2))
            } else if starts_with_spec(t, "# @session "@) {
                scan_header(ls.skip(i + 1), (h.0, h.1, trim_all(split_on(trim(t.skip("# @session "@.len() as int)), ','))))
            } else if !starts_with_spec(t, "#"@) && t.len() > 0 {
                h
            } else {
                scan_header(ls.skip(i + 1), h)
            }
        }),
{
    assert(ls.skip(i)[0] == ls[i]);
    assert(ls.skip(i).skip(1) =~= ls.skip(i + 1));
}

/// The text after `prefix`, trimmed.
fn after_prefix(t: &[char], plen: usize) -> (r: Vec<char>)
    requires
        plen <= t@.len(),
    ensures
        r@ == trim(t@.skip(plen as int)),
{
    let rest = copy_range(t, plen, t.len());
    assert(rest@ == t@.skip(plen as int));
    trim_chars(&rest)
}

/// Parse a tool script's header.
pub fn parse_script(path: &str, content: &str) -> (r: Option<ToolDef>)
    ensures
        r is Some <==> parse_script_spec(path@, content@) is Some,
        r matches Some(t) ==> t@ == parse_script_spec(path@, content@)->0,
{
    let cs = chars_of(content);
    let ls = split_lines(&cs);
    let ghost lv = views(ls@);
    let name_p = chars_of("# @name ");
    let desc_p = chars_of("# @desc ");
    let sess_p = chars_of("# @session ");
    let hash = chars_of("#");
    let mut name: Vec<char> = Vec::new();
    let mut desc: Vec<char> = Vec::new();
    let mut sessions: Vec<String> = Vec::new();
    sessions.push(String::from_str("all"));
    let ghost init: Header = (seq![], seq![], seq!["all"@]);
    assert(string_views(sessions@) =~= seq!["all"@]);
    assert(lv.skip(0) == lv);
    let mut i: usize = 0;
    while i < ls.len()
        invariant_except_break
            0 <= i <= ls@.len(),
            lv == views(ls@),
            name_p@ == "# @name "@,
            desc_p@ == "# @desc "@,
            sess_p@ == "# @session "@,
            hash@ == "#"@,
            scan_header(lv.skip(i as int), (name@, desc@, string_views(sessions@))) == scan_header(lv, init),
        ensures
            (name@, desc@, string_views(sessions@)) == scan_header(lv, init),
        decreases ls@.len() - i,
    {
        let t = trim_chars(&ls[i]);
        proof {
            assert(lv[i as int] == ls@[i as int]@);
            assert(t@ == trim(lv[i as int]));
        }
        proof {
            lemma_scan_unfold(lv, i as int, (name@, desc@, string_views(sessions@)));
        }
        if starts_with(&t, &name_p) {
            name = after_prefix(&t, name_p.len());
        } else if starts_with(&t, &desc_p) {
            desc = after_prefix(&t, desc_p.len());
        } else if starts_with(&t, &sess_p) {
            let body = after_prefix(&t, sess_p.len());
            let pieces = split_chars(&body, ',');
            sessions = trim_each(&pieces);
        } else if !starts_with(&t, &hash) && t.len() > 0 {
            break;
        }
        i = i + 1;
        if i == ls.len() {
            assert(lv.skip(i as int).len() == 0);
        }
    }
    let name_s = if name.len() == 0 {
        match file_stem(path) {
            Some(s) => s,
            None => {
                return None;
            },
        }
    } else {
        string_from(&name)
    };
    let desc_s = if desc.len() == 0 {
        let mut d = String::from_str("Execute the ");
        d.append(name_s.as_str());
        d.append(" script");
        d
    } else {
        string_from(&desc)
    };
    Some(ToolDef { name: name_s, desc: desc_s, script_path: String::from_str(path), session_types: sessions })
}

/// After a tool is added to a registry, looking up its name gives that tool,
/// and every other name gives what it gave before.
pub proof fn law_registry_insert_then_get(before: ToolRegistry, after: ToolRegistry, tool: ToolDef, other: Seq<char>)
    requires
        after.tools_view() == before.tools_view().insert(tool.name@, tool@),
    ensures
        after.tools_view().contains_key(tool.name@),
        after.tools_view()[tool.name@] == tool@,
        other != tool.name@ ==> after.tools_view().contains_key(other) == before.tools_view().contains_key(other),
        other != tool.name@ && before.tools_view().contains_key(other) ==> after.tools_view()[other] == before.tools_view()[other],
{
}

} // verus!
