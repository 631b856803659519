//! The command line of the official mini-apps.

use crate::json::{Json, Object, Tree};
use crate::json_text::{json_parse, parse};
use crate::path::{file_name, file_stem, stem, PathStyle};
use crate::text::{from_chars, join, joined, same, starts_with, texts, to_chars};
use crate::text_map::TextMap;
use crate::url_text::opt_view;
use vstd::prelude::*;
use vstd::string::*;

verus! {

/// An argument that is an option of this name, with its value behind `=` or not.
pub open spec fn is_option(arg: Seq<char>, name: Seq<char>) -> bool {
    arg == name || (name + "="@).is_prefix_of(arg)
}

/// The first option of this name.
pub open spec fn first_option(args: Seq<Seq<char>>, name: Seq<char>, at: int) -> bool {
    &&& 0 <= at < args.len()
    &&& is_option(args[at], name)
    &&& forall|j: int| 0 <= j < at ==> !is_option(#[trigger] args[j], name)
}

/// What stands behind the first equals sign.
pub open spec fn after_equals(arg: Seq<char>) -> Seq<char>
    decreases arg.len(),
{
    if arg.len() == 0 {
        arg
    } else if arg[0] == '=' {
        arg.drop_first()
    } else {
        after_equals(arg.drop_first())
    }
}

/// The value of an option that is taken out at `at`, and the arguments that are left: the value
/// stands behind its equals sign, or else is the next argument.
pub open spec fn taken_at(args: Seq<Seq<char>>, at: int) -> (Option<Seq<char>>, Seq<Seq<char>>) {
    let rest = args.remove(at);
    if args[at].contains('=') {
        (Some(after_equals(args[at])), rest)
    } else if at < rest.len() {
        (Some(rest[at]), rest.remove(at))
    } else {
        (None, rest)
    }
}

/// The value of an option and the arguments that are left once it is taken out.
pub open spec fn taken(args: Seq<Seq<char>>, name: Seq<char>) -> (
    Option<Seq<char>>,
    Seq<Seq<char>>,
) {
    if exists|at: int| first_option(args, name, at) {
        taken_at(args, choose|at: int| first_option(args, name, at))
    } else {
        (None, args)
    }
}

fn value_behind_equals(arg: &str) -> (out: Option<String>)
    ensures
        match out {
            Some(value) => arg@.contains('=') && value@ == after_equals(arg@),
            None => !arg@.contains('='),
        },
{
    let chars = to_chars(arg);
    let length: usize = chars.len();
    let mut i: usize = 0;
    proof {
        assert(arg@.skip(0) =~= arg@);
    }
    while i < length
        invariant
            chars@ == arg@,
            length == chars@.len(),
            i <= length,
            forall|j: int| 0 <= j < i ==> arg@[j] != '=',
            after_equals(arg@) == after_equals(arg@.skip(i as int)),
        decreases length - i,
    {
        proof {
            assert(arg@.skip(i as int).drop_first() =~= arg@.skip(i + 1));
            assert(arg@.skip(i as int)[0] == arg@[i as int]);
        }
        if chars[i] == '=' {
            proof {
                assert(arg@.subrange(i + 1, length as int) =~= arg@.skip(i + 1));
                assert(arg@[i as int] == '=');
            }
            return Some(from_chars(&chars, i + 1, length));
        }
        i = i + 1;
    }
    None
}

fn find_option(args: &Vec<String>, name: &str) -> (out: Option<usize>)
    ensures
        match out {
            Some(at) => first_option(texts(args@), name@, at as int),
            None => forall|at: int| !first_option(texts(args@), name@, at),
        },
{
    let prefix = name.to_owned().concat("=");
    let mut i: usize = 0;
    while i < args.len()
        invariant
            i <= args@.len(),
            prefix@ == name@ + "="@,
            forall|j: int| 0 <= j < i ==> !is_option(#[trigger] texts(args@)[j], name@),
        decreases args@.len() - i,
    {
        if same(args[i].as_str(), name) || starts_with(args[i].as_str(), prefix.as_str()) {
            proof {
                assert(is_option(texts(args@)[i as int], name@));
            }
            return Some(i);
        }
        proof {
            assert(!is_option(texts(args@)[i as int], name@));
        }
        i = i + 1;
    }
    None
}

/// Takes an option out of arguments and gives its value.
pub fn take_option(args: &mut Vec<String>, name: &str) -> (out: Option<String>)
    ensures
        (opt_view(out), texts(final(args)@)) == taken(texts(old(args)@), name@),
{
    let ghost before = texts(args@);
    let at = match find_option(args, name) {
        Some(at) => at,
        None => {
            return None;
        },
    };
    proof {
        let chosen = choose|k: int| first_option(before, name@, k);
        assert(first_option(before, name@, at as int));
        assert(first_option(before, name@, chosen));
        if chosen < at {
            assert(!is_option(before[chosen], name@));
        } else if at < chosen {
            assert(!is_option(before[at as int], name@));
        }
        assert(chosen == at);
    }
    let option = args.remove(at);
    let ghost rest = texts(args@);
    proof {
        assert(option@ == before[at as int]);
        assert(rest =~= before.remove(at as int));
    }
    match value_behind_equals(option.as_str()) {
        Some(value) => Some(value),
        None => {
            if at < args.len() {
                let value = args.remove(at);
                proof {
                    assert(value@ == rest[at as int]);
                    assert(texts(args@) =~= rest.remove(at as int));
                }
                Some(value)
            } else {
                None
            }
        },
    }
}

/// The first of the known identifiers that a name starts with.
pub open spec fn id_in_name(ids: Seq<Seq<char>>, name: Seq<char>) -> Option<Seq<char>>
    decreases ids.len(),
{
    if ids.len() == 0 {
        None
    } else if ids[0].is_prefix_of(name) {
        Some(ids[0])
    } else {
        id_in_name(ids.drop_first(), name)
    }
}

/// The plugin that an executable is named after.
pub open spec fn inferred_id(
    style: PathStyle,
    ids: Seq<Seq<char>>,
    executable: Seq<char>,
) -> Option<Seq<char>> {
    match file_name(style, executable) {
        Some(name) => id_in_name(ids, stem(name)),
        None => None,
    }
}

/// Finds the plugin that an executable is named after.
pub fn infer_plugin_id(style: PathStyle, executable: &str, ids: &Vec<String>) -> (out: Option<
    String,
>)
    ensures
        opt_view(out) == inferred_id(style, texts(ids@), executable@),
{
    let name = match file_stem(style, executable) {
        Some(name) => name,
        None => {
            return None;
        },
    };
    let mut i: usize = 0;
    proof {
        assert(texts(ids@).skip(0) =~= texts(ids@));
    }
    while i < ids.len()
        invariant
            i <= ids@.len(),
            id_in_name(texts(ids@), name@) == id_in_name(texts(ids@).skip(i as int), name@),
            file_name(style, executable@) is Some,
            name@ == stem(file_name(style, executable@)->0),
        decreases ids@.len() - i,
    {
        proof {
            assert(texts(ids@).skip(i as int).drop_first() =~= texts(ids@).skip(i + 1));
            assert(texts(ids@).skip(i as int)[0] == ids@[i as int]@);
        }
        if starts_with(name.as_str(), ids[i].as_str()) {
            return Some(ids[i].clone());
        }
        i = i + 1;
    }
    None
}

/// The plugin that a command line is for, and the arguments that are left, or why it is for none.
/// The first argument is the executable.
pub open spec fn chosen_plugin(
    style: PathStyle,
    args: Seq<Seq<char>>,
    environment: Option<Seq<char>>,
    ids: Seq<Seq<char>>,
) -> Result<(Seq<char>, Seq<Seq<char>>), Seq<char>> {
    let (short, after) = taken(args.drop_first(), "--plugin"@);
    match short {
        Some(id) => Ok((id, after)),
        None => {
            let (long, rest) = taken(after, "--plugin-id"@);
            match long {
                Some(id) => Ok((id, rest)),
                None => match environment {
                    Some(id) => Ok((id, rest)),
                    None => match inferred_id(style, ids, args[0]) {
                        Some(id) => Ok((id, rest)),
                        None => Err(
                            "--plugin is required; expected one of "@ + joined(ids, ", "@),
                        ),
                    },
                },
            }
        },
    }
}

/// Decides which plugin a command line is for. `environment` is the plugin that the environment
/// names.
pub fn choose_plugin(
    style: PathStyle,
    args: Vec<String>,
    environment: Option<String>,
    ids: &Vec<String>,
) -> (out: Result<(String, Vec<String>), String>)
    requires
        args@.len() > 0,
    ensures
        match out {
            Ok((id, rest)) => chosen_plugin(style, texts(args@), opt_view(environment), texts(ids@))
                == Ok::<(Seq<char>, Seq<Seq<char>>), Seq<char>>((id@, texts(rest@))),
            Err(message) => chosen_plugin(style, texts(args@), opt_view(environment), texts(ids@)) == Err::<
                (Seq<char>, Seq<Seq<char>>),
                Seq<char>,
            >(message@),
        },
{
    let ghost all = texts(args@);
    let mut args = args;
    let executable = args.remove(0);
    proof {
        assert(texts(args@) =~= all.drop_first());
    }
    match take_option(&mut args, "--plugin") {
        Some(id) => {
            return Ok((id, args));
        },
        None => {},
    }
    match take_option(&mut args, "--plugin-id") {
        Some(id) => {
            return Ok((id, args));
        },
        None => {},
    }
    match environment {
        Some(id) => {
            return Ok((id, args));
        },
        None => {},
    }
    match infer_plugin_id(style, executable.as_str(), ids) {
        Some(id) => Ok((id, args)),
        None => Err(
            "--plugin is required; expected one of ".to_owned().concat(join(ids, ", ").as_str()),
        ),
    }
}

/// A plugin that is not an official one.
pub fn unknown_plugin_error(id: &str) -> (out: String)
    ensures
        out@ == "unknown official plugin: "@ + id@,
{
    "unknown official plugin: ".to_owned().concat(id)
}

/// What a command line asks for.
pub ghost enum CommandView {
    DumpManifest,
    Serve,
    Help,
    Call { tool: Seq<char>, arguments: Tree },
}

/// What a command line asks for.
#[derive(Debug, PartialEq, Eq)]
pub enum OfficialCommand {
    DumpManifest,
    Serve,
    Help,
    Call { tool: String, arguments: Json },
}

impl View for OfficialCommand {
    type V = CommandView;

    open spec fn view(&self) -> CommandView {
        match self {
            OfficialCommand::DumpManifest => CommandView::DumpManifest,
            OfficialCommand::Serve => CommandView::Serve,
            OfficialCommand::Help => CommandView::Help,
            OfficialCommand::Call { tool, arguments } => CommandView::Call {
                tool: tool@,
                arguments: arguments@,
            },
        }
    }
}

/// The tool that a command stands for, or the one of its name.
pub open spec fn tool_for(commands: Map<Seq<char>, Seq<char>>, command: Seq<char>) -> Seq<char> {
    if commands.contains_key(command) {
        commands[command]
    } else {
        command
    }
}

/// The arguments of a direct call: the JSON option, or else all words together, or else nothing.
pub open spec fn call_arguments(args: Seq<Seq<char>>) -> Result<Tree, Seq<char>> {
    let (json, rest) = taken(args, "--json"@);
    match json {
        Some(source) => match json_parse(source) {
            Ok(value) => Ok(value),
            Err(error) => Err("invalid --json: "@ + error),
        },
        None => if rest.len() == 0 {
            Ok(Tree::Object(Map::empty()))
        } else {
            Ok(Tree::Object(map!["input"@ => Tree::Text(joined(rest, " "@))]))
        },
    }
}

/// What a command line asks for; `commands` are the short names of tools.
pub open spec fn command_of(args: Seq<Seq<char>>, commands: Map<Seq<char>, Seq<char>>) -> Result<
    CommandView,
    Seq<char>,
> {
    if args.len() == 0 {
        Ok(CommandView::Help)
    } else if args[0] == "--dump-manifest"@ || args[0] == "dump-manifest"@ {
        Ok(CommandView::DumpManifest)
    } else if args[0] == "mcp-serve"@ || args[0] == "mcp"@ {
        Ok(CommandView::Serve)
    } else if args[0] == "help"@ || args[0] == "--help"@ || args[0] == "-h"@ {
        Ok(CommandView::Help)
    } else {
        match call_arguments(args.drop_first()) {
            Ok(arguments) => Ok(
                CommandView::Call { tool: tool_for(commands, args[0]), arguments },
            ),
            Err(message) => Err(message),
        }
    }
}

/// Decides what a command line asks for.
pub fn plan_command(args: Vec<String>, commands: &TextMap<String>) -> (out: Result<
    OfficialCommand,
    String,
>)
    ensures
        match out {
            Ok(command) => command_of(texts(args@), commands.deep()) == Ok::<
                CommandView,
                Seq<char>,
            >(command@),
            Err(message) => command_of(texts(args@), commands.deep()) == Err::<
                CommandView,
                Seq<char>,
            >(message@),
        },
{
    if args.len() == 0 {
        return Ok(OfficialCommand::Help);
    }
    let ghost all = texts(args@);
    let mut args = args;
    let command = args.remove(0);
    proof {
        assert(command@ == all[0]);
        assert(texts(args@) =~= all.drop_first());
    }
    let word = command.as_str();
    if same(word, "--dump-manifest") || same(word, "dump-manifest") {
        return Ok(OfficialCommand::DumpManifest);
    }
    if same(word, "mcp-serve") || same(word, "mcp") {
        return Ok(OfficialCommand::Serve);
    }
    if same(word, "help") || same(word, "--help") || same(word, "-h") {
        return Ok(OfficialCommand::Help);
    }
    let tool = match commands.get(word) {
        Some(tool) => tool.clone(),
        None => command.clone(),
    };
    let arguments = match take_option(&mut args, "--json") {
        Some(source) => match parse(source.as_str()) {
            Ok(value) => value,
            Err(error) => {
                return Err("invalid --json: ".to_owned().concat(error.as_str()));
            },
        },
        None => {
            proof {
                assert(texts(args@).len() == args@.len());
            }
            if args.len() == 0 {
                Json::Object(Object::new())
            } else {
                Json::Object(Object::new().with_text("input", join(&args, " ").as_str()))
            }
        },
    };
    Ok(OfficialCommand::Call { tool, arguments })
}

/// How the command line of a plugin is used.
pub fn help_text(title: &str, plugin_id: &str, commands: &Vec<String>) -> (out: String)
    ensures
        out@ == title@ + " local CLI/MCP\n\nUsage:\n  fabushi-plugin-cli --plugin "@ + plugin_id@
            + " --dump-manifest\n  fabushi-plugin-cli --plugin "@ + plugin_id@
            + " <command> [--json '{...}']\n  fabushi-plugin-cli --plugin "@ + plugin_id@
            + " mcp-serve\n\nCommands: "@ + joined(texts(commands@), ", "@),
{
    title.to_owned().concat(" local CLI/MCP\n\nUsage:\n  fabushi-plugin-cli --plugin ").concat(
        plugin_id,
    ).concat(" --dump-manifest\n  fabushi-plugin-cli --plugin ").concat(plugin_id).concat(
        " <command> [--json '{...}']\n  fabushi-plugin-cli --plugin ",
    ).concat(plugin_id).concat(" mcp-serve\n\nCommands: ").concat(join(commands, ", ").as_str())
}

/// The address of a plugin's home page.
pub open spec fn home_uri(plugin_id: Seq<char>) -> Seq<char> {
    "ui://fabushi/"@ + plugin_id + "/home-v1.html"@
}

/// The address of a plugin's home page.
pub fn resource_uri(plugin_id: &str) -> (out: String)
    ensures
        out@ == home_uri(plugin_id@),
{
    "ui://fabushi/".to_owned().concat(plugin_id).concat("/home-v1.html")
}

/// Where a plugin keeps its state: a directory and the names that lead down from it.
pub open spec fn state_parts(
    state_dir: Option<Seq<char>>,
    home: Option<Seq<char>>,
    cwd: Seq<char>,
    plugin_id: Seq<char>,
) -> Seq<Seq<char>> {
    let root = match state_dir {
        Some(dir) => seq![dir],
        None => match home {
            Some(dir) => seq![dir],
            None => seq![cwd, ".mahayana-state"@],
        },
    };
    root.push("plugins"@).push(plugin_id).push("state.json"@)
}

/// Where a plugin keeps its state. Without a working directory there is no place, even where the
/// environment names one.
pub fn state_path(
    state_dir: Option<String>,
    home: Option<String>,
    cwd: Result<String, String>,
    plugin_id: &str,
) -> (out: Result<Vec<String>, String>)
    ensures
        match (out, cwd) {
            (Ok(parts), Ok(cwd)) => texts(parts@) == state_parts(
                opt_view(state_dir),
                opt_view(home),
                cwd@,
                plugin_id@,
            ),
            (Err(message), Err(error)) => message@ == error@,
            _ => false,
        },
{
    let cwd = match cwd {
        Ok(cwd) => cwd,
        Err(error) => {
            return Err(error);
        },
    };
    let ghost wanted = state_parts(opt_view(state_dir), opt_view(home), cwd@, plugin_id@);
    let mut parts: Vec<String> = Vec::new();
    match state_dir {
        Some(dir) => {
            parts.push(dir);
        },
        None => match home {
            Some(dir) => {
                parts.push(dir);
            },
            None => {
                parts.push(cwd);
                parts.push(".mahayana-state".to_owned());
            },
        },
    }
    parts.push("plugins".to_owned());
    parts.push(plugin_id.to_owned());
    parts.push("state.json".to_owned());
    proof {
        assert(texts(parts@) =~= wanted);
    }
    Ok(parts)
}

} // verus!
