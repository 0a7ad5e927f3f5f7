//! From a raw tool call to the class of what it does.
//!
//! Capability tools are classified by the prefix of their name, built-in tools by their name.
//! What is not known is of no class that any state allows.

use vstd::prelude::*;

use crate::config::{CapabilityPrefix, PrefixV};
use crate::json::{text_field, Json, JsonV};
use crate::state::ToolClass;
use crate::text::{any_same, chars_of, has_prefix, same_text, starts_with, string_of};

verus! {

/// A tool's name without a prefix that it has.
pub open spec fn bare_name(tool: Seq<char>, prefix: Seq<char>) -> Seq<char> {
    tool.skip(prefix.len() as int)
}

/// A prefix permits a tool that has it: it lists no tools, or this one.
pub open spec fn permits(p: PrefixV, tool: Seq<char>) -> bool {
    p.tools.len() == 0 || p.tools.contains(bare_name(tool, p.prefix))
}

/// Some prefix is one of the tool's.
pub open spec fn covered(l: Seq<PrefixV>, tool: Seq<char>) -> bool {
    exists|i: int| 0 <= i < l.len() && has_prefix(tool, (#[trigger] l[i]).prefix)
}

/// Every prefix of the tool permits it.
pub open spec fn permitted(l: Seq<PrefixV>, tool: Seq<char>) -> bool {
    forall|i: int|
        0 <= i < l.len() && has_prefix(tool, (#[trigger] l[i]).prefix) ==> permits(l[i], tool)
}

/// A built-in tool that only reads.
pub open spec fn is_read_tool(t: Seq<char>) -> bool {
    ||| t == "Read"@
    ||| t == "FileRead"@
    ||| t == "Grep"@
    ||| t == "Glob"@
    ||| t == "LSP"@
    ||| t == "WebFetch"@
    ||| t == "WebSearch"@
    ||| t == "ListMcpResources"@
    ||| t == "ListMcpResourcesTool"@
    ||| t == "ReadMcpResource"@
    ||| t == "ReadMcpResourceTool"@
    ||| t == "ToolSearch"@
    ||| t == "TaskGet"@
    ||| t == "TaskList"@
    ||| t == "TaskOutput"@
}

/// A built-in tool that writes a file.
pub open spec fn is_write_tool(t: Seq<char>) -> bool {
    t == "Write"@ || t == "Edit"@ || t == "NotebookEdit"@
}

/// A built-in tool that runs a shell.
pub open spec fn is_shell_tool(t: Seq<char>) -> bool {
    t == "Bash"@ || t == "PowerShell"@ || t == "REPL"@ || t == "KillShell"@
}

/// The class of a tool. Irreversible prefixes are looked at first; a tool that a prefix of its
/// own does not permit is of no class.
pub open spec fn class_of(
    tool: Seq<char>,
    settle: Seq<PrefixV>,
    post: Seq<PrefixV>,
    read: Seq<PrefixV>,
) -> ToolClass {
    if covered(settle, tool) {
        if permitted(settle, tool) {
            ToolClass::SettleTx
        } else {
            ToolClass::Other
        }
    } else if covered(post, tool) {
        if permitted(post, tool) {
            ToolClass::Post
        } else {
            ToolClass::Other
        }
    } else if covered(read, tool) {
        if permitted(read, tool) {
            ToolClass::Read
        } else {
            ToolClass::Other
        }
    } else if is_read_tool(tool) {
        ToolClass::Read
    } else if is_write_tool(tool) {
        ToolClass::FileWrite
    } else if is_shell_tool(tool) {
        ToolClass::Shell
    } else {
        ToolClass::Other
    }
}

/// The path that a call would write.
pub open spec fn target_of(input: JsonV) -> Option<Seq<char>> {
    match text_field(input, "file_path"@) {
        Some(p) => Some(p),
        None => text_field(input, "notebook_path"@),
    }
}

/// Whether a prefix of the list is the tool's, and whether all of those permit it.
fn match_prefixes(l: &Vec<CapabilityPrefix>, tool: &str) -> (r: (bool, bool))
    ensures
        r.0 == covered(l.deep_view(), tool@),
        r.1 == permitted(l.deep_view(), tool@),
{
    let ghost lv = l.deep_view();
    let chars = chars_of(tool);
    let mut found = false;
    let mut fine = true;
    let mut i: usize = 0;
    while i < l.len()
        invariant
            i <= l@.len(),
            lv == l.deep_view(),
            chars@ == tool@,
            found == exists|k: int|
                0 <= k < i && has_prefix(tool@, (#[trigger] lv[k]).prefix),
            fine == forall|k: int|
                0 <= k < i && has_prefix(tool@, (#[trigger] lv[k]).prefix) ==> permits(
                    lv[k],
                    tool@,
                ),
        decreases l@.len() - i,
    {
        assert(lv[i as int] == l@[i as int].deep_view());
        let p = &l[i];
        if starts_with(tool, p.prefix.as_str()) {
            found = true;
            assert(p.tools.deep_view().len() == p.tools@.len());
            if p.tools.len() > 0 {
                let n: usize = chars_of(p.prefix.as_str()).len();
                let bare = string_of(&chars, n, chars.len());
                assert(bare@ =~= bare_name(tool@, p.prefix@));
                if !any_same(&p.tools, bare.as_str()) {
                    fine = false;
                }
            }
        }
        i += 1;
    }
    (found, fine)
}

fn reads(t: &str) -> (r: bool)
    ensures
        r == is_read_tool(t@),
{
    same_text(t, "Read") || same_text(t, "FileRead") || same_text(t, "Grep") || same_text(t, "Glob")
        || same_text(t, "LSP") || same_text(t, "WebFetch") || same_text(t, "WebSearch")
        || same_text(t, "ListMcpResources") || same_text(t, "ListMcpResourcesTool") || same_text(
        t,
        "ReadMcpResource",
    ) || same_text(t, "ReadMcpResourceTool") || same_text(t, "ToolSearch") || same_text(t, "TaskGet")
        || same_text(t, "TaskList") || same_text(t, "TaskOutput")
}

/// The class of a tool call, and the path that it would write.
pub fn classify_tool(
    tool: &str,
    input: &Json,
    settle: &Vec<CapabilityPrefix>,
    post: &Vec<CapabilityPrefix>,
    read: &Vec<CapabilityPrefix>,
) -> (r: (ToolClass, Option<String>))
    ensures
        r.0 == class_of(tool@, settle.deep_view(), post.deep_view(), read.deep_view()),
        r.1.deep_view() == target_of(input@),
{
    let target = match input.get_str("file_path") {
        Some(p) => Some(p.clone()),
        None => match input.get_str("notebook_path") {
            Some(p) => Some(p.clone()),
            None => None,
        },
    };
    let (in_settle, settle_fine) = match_prefixes(settle, tool);
    let (in_post, post_fine) = match_prefixes(post, tool);
    let (in_read, read_fine) = match_prefixes(read, tool);
    let class = if in_settle {
        if settle_fine {
            ToolClass::SettleTx
        } else {
            ToolClass::Other
        }
    } else if in_post {
        if post_fine {
            ToolClass::Post
        } else {
            ToolClass::Other
        }
    } else if in_read {
        if read_fine {
            ToolClass::Read
        } else {
            ToolClass::Other
        }
    } else if reads(tool) {
        ToolClass::Read
    } else if same_text(tool, "Write") || same_text(tool, "Edit") || same_text(
        tool,
        "NotebookEdit",
    ) {
        ToolClass::FileWrite
    } else if same_text(tool, "Bash") || same_text(tool, "PowerShell") || same_text(tool, "REPL")
        || same_text(tool, "KillShell") {
        ToolClass::Shell
    } else {
        ToolClass::Other
    };
    (class, target)
}

/// A tool under a settle prefix is irreversible or of no class: it is never taken for one that
/// posts or reads.
pub proof fn a_settle_tool_settles_or_nothing(
    tool: Seq<char>,
    settle: Seq<PrefixV>,
    post: Seq<PrefixV>,
    read: Seq<PrefixV>,
)
    requires
        covered(settle, tool),
    ensures
        class_of(tool, settle, post, read) == ToolClass::SettleTx || class_of(
            tool,
            settle,
            post,
            read,
        ) == ToolClass::Other,
{
}

/// An allowlist holds a server to its tools: what the list leaves out is of no class, in
/// whichever tier the server stands.
pub proof fn an_allowlist_fails_closed(
    tool: Seq<char>,
    settle: Seq<PrefixV>,
    post: Seq<PrefixV>,
    read: Seq<PrefixV>,
    i: int,
)
    requires
        !covered(settle, tool),
        !covered(post, tool),
        0 <= i < read.len(),
        has_prefix(tool, read[i].prefix),
        !permits(read[i], tool),
    ensures
        class_of(tool, settle, post, read) == ToolClass::Other,
{
}

/// A tool is of the strictest tier that covers it, and of none where that tier does not permit it:
/// settling goes before posting, and that before reading.
pub proof fn the_strictest_tier_counts(
    tool: Seq<char>,
    settle: Seq<PrefixV>,
    post: Seq<PrefixV>,
    read: Seq<PrefixV>,
)
    ensures
        class_of(tool, settle, post, read) == ToolClass::SettleTx <==> covered(settle, tool)
            && permitted(settle, tool),
        class_of(tool, settle, post, read) == ToolClass::Post <==> !covered(settle, tool) && covered(
            post,
            tool,
        ) && permitted(post, tool),
        covered(read, tool) && !covered(settle, tool) && !covered(post, tool) ==> (class_of(
            tool,
            settle,
            post,
            read,
        ) == ToolClass::Read <==> permitted(read, tool)),
{
}

/// A tool that no server covers is known by its name: those that look, those that write files, those
/// that run commands, and no other.
pub proof fn a_tool_of_the_house_is_known_by_name(
    tool: Seq<char>,
    settle: Seq<PrefixV>,
    post: Seq<PrefixV>,
    read: Seq<PrefixV>,
)
    requires
        !covered(settle, tool),
        !covered(post, tool),
        !covered(read, tool),
    ensures
        class_of(tool, settle, post, read) == ToolClass::Read <==> tool == "Read"@
            || tool == "FileRead"@
            || tool == "Grep"@
            || tool == "Glob"@
            || tool == "LSP"@
            || tool == "WebFetch"@
            || tool == "WebSearch"@
            || tool == "ListMcpResources"@
            || tool == "ListMcpResourcesTool"@
            || tool == "ReadMcpResource"@
            || tool == "ReadMcpResourceTool"@
            || tool == "ToolSearch"@
            || tool == "TaskGet"@
            || tool == "TaskList"@
            || tool == "TaskOutput"@,
        class_of(tool, settle, post, read) == ToolClass::FileWrite <==> tool == "Write"@
            || tool == "Edit"@
            || tool == "NotebookEdit"@,
        class_of(tool, settle, post, read) == ToolClass::Shell <==> tool == "Bash"@
            || tool == "PowerShell"@
            || tool == "REPL"@
            || tool == "KillShell"@,
{
    reveal_strlit("Read");
    reveal_strlit("FileRead");
    reveal_strlit("Grep");
    reveal_strlit("Glob");
    reveal_strlit("LSP");
    reveal_strlit("WebFetch");
    reveal_strlit("WebSearch");
    reveal_strlit("ListMcpResources");
    reveal_strlit("ListMcpResourcesTool");
    reveal_strlit("ReadMcpResource");
    reveal_strlit("ReadMcpResourceTool");
    reveal_strlit("ToolSearch");
    reveal_strlit("TaskGet");
    reveal_strlit("TaskList");
    reveal_strlit("TaskOutput");
    reveal_strlit("Write");
    reveal_strlit("Edit");
    reveal_strlit("NotebookEdit");
    reveal_strlit("Bash");
    reveal_strlit("PowerShell");
    reveal_strlit("REPL");
    reveal_strlit("KillShell");
    assert("Read"@.len() == 4 && "Read"@[0] == 'R' && "Read"@[1] == 'e');
    assert("FileRead"@.len() == 8 && "FileRead"@[0] == 'F' && "FileRead"@[1] == 'i');
    assert("Grep"@.len() == 4 && "Grep"@[0] == 'G' && "Grep"@[1] == 'r');
    assert("Glob"@.len() == 4 && "Glob"@[0] == 'G' && "Glob"@[1] == 'l');
    assert("LSP"@.len() == 3 && "LSP"@[0] == 'L' && "LSP"@[1] == 'S');
    assert("WebFetch"@.len() == 8 && "WebFetch"@[0] == 'W' && "WebFetch"@[1] == 'e');
    assert("WebSearch"@.len() == 9 && "WebSearch"@[0] == 'W' && "WebSearch"@[1] == 'e');
    assert("ListMcpResources"@.len() == 16 && "ListMcpResources"@[0] == 'L' && "ListMcpResources"@[1] == 'i');
    assert("ListMcpResourcesTool"@.len() == 20 && "ListMcpResourcesTool"@[0] == 'L' && "ListMcpResourcesTool"@[1] == 'i');
    assert("ReadMcpResource"@.len() == 15 && "ReadMcpResource"@[0] == 'R' && "ReadMcpResource"@[1] == 'e');
    assert("ReadMcpResourceTool"@.len() == 19 && "ReadMcpResourceTool"@[0] == 'R' && "ReadMcpResourceTool"@[1] == 'e');
    assert("ToolSearch"@.len() == 10 && "ToolSearch"@[0] == 'T' && "ToolSearch"@[1] == 'o');
    assert("TaskGet"@.len() == 7 && "TaskGet"@[0] == 'T' && "TaskGet"@[1] == 'a');
    assert("TaskList"@.len() == 8 && "TaskList"@[0] == 'T' && "TaskList"@[1] == 'a');
    assert("TaskOutput"@.len() == 10 && "TaskOutput"@[0] == 'T' && "TaskOutput"@[1] == 'a');
    assert("Write"@.len() == 5 && "Write"@[0] == 'W' && "Write"@[1] == 'r');
    assert("Edit"@.len() == 4 && "Edit"@[0] == 'E' && "Edit"@[1] == 'd');
    assert("NotebookEdit"@.len() == 12 && "NotebookEdit"@[0] == 'N' && "NotebookEdit"@[1] == 'o');
    assert("Bash"@.len() == 4 && "Bash"@[0] == 'B' && "Bash"@[1] == 'a');
    assert("PowerShell"@.len() == 10 && "PowerShell"@[0] == 'P' && "PowerShell"@[1] == 'o');
    assert("REPL"@.len() == 4 && "REPL"@[0] == 'R' && "REPL"@[1] == 'E');
    assert("KillShell"@.len() == 9 && "KillShell"@[0] == 'K' && "KillShell"@[1] == 'i');
}

/// A tool is covered by every prefix that it begins with, and a prefix that lists tools permits
/// those alone.
pub proof fn a_listed_tool_is_permitted(p: PrefixV, name: Seq<char>)
    ensures
        covered(seq![p], p.prefix + name),
        permitted(seq![p], p.prefix + name) <==> p.tools.len() == 0 || p.tools.contains(name),
        !covered(Seq::empty(), name),
{
    let tool = p.prefix + name;
    assert(tool.subrange(0, p.prefix.len() as int) =~= p.prefix);
    assert(has_prefix(tool, seq![p][0].prefix));
    assert(bare_name(tool, p.prefix) =~= name);
}

/// What a write is aimed at is the path of the file, or else of the notebook.
pub proof fn a_write_is_aimed_at_its_path(input: JsonV, s: Seq<char>)
    ensures
        text_field(input, "file_path"@) == Some(s) ==> target_of(input) == Some(s),
        text_field(input, "file_path"@) is None ==> target_of(input) == text_field(
            input,
            "notebook_path"@,
        ),
{
}

} // verus!
