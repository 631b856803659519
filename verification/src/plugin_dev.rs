//! Plugin repositories: where they come from, what a marketplace lists, and what a plugin must
//! have.

use crate::json::{
    appended, field, field_or_null, inner_text, items_field, json_result, text_field, text_trees,
    tree, trees, Json, Object, Tree,
};
use crate::json_text::{
    alike, json_parse, json_pretty, lemma_alike_fields, lemma_nests_deeper, nests, parse, pretty,
    NESTING,
};
use crate::order::{
    arrange, arranged, compare, lemma_precedes_asymmetric, lemma_precedes_total,
    lemma_precedes_transitive, precedes, Listed, Rank,
};
use crate::path::{
    components, extension, has_extension, inner_parts, lead, leads_down, path_pieces, stays_down,
    under, PathStyle,
};
use crate::path_join::{
    is_settled, join_path, joined_path, lemma_joined_components, lemma_leads_down, lemma_no_dots,
};
use crate::plugin_name::{normalized, normalized_name};
use crate::text::{
    blank, count_char, count_of, has_char, is_blank, same, starts_with, text_result, texts,
};
use crate::url_text::{opt_view, parse_url, url_parse, UrlParts, UrlView};
use vstd::prelude::*;
use vstd::string::*;

verus! {

/// What a repository offers.
#[derive(Debug, PartialEq, Eq)]
pub struct RemoteRepository {
    pub marketplace: String,
    pub plugins: Vec<String>,
    pub has_local_runtimes: bool,
}

/// An owner and a repository, with a slash between them and nothing that a URL would have.
pub open spec fn is_short_source(source: Seq<char>) -> bool {
    count_of(source, '/') == 1 && !source.contains(':')
}

/// A text that names a repository on GitHub rather than a plugin.
pub open spec fn is_github_source(source: Seq<char>) -> bool {
    ||| "https://github.com/"@.is_prefix_of(source)
    ||| "ssh://git@github.com/"@.is_prefix_of(source)
    ||| "git@github.com:"@.is_prefix_of(source)
    ||| is_short_source(source)
}

fn short_source(source: &str) -> (yes: bool)
    ensures
        yes == is_short_source(source@),
{
    count_char(source, '/') == 1 && !has_char(source, ':')
}

/// Tests for a text that names a repository on GitHub rather than a plugin.
pub fn looks_like_github_source(source: &str) -> (yes: bool)
    ensures
        yes == is_github_source(source@),
{
    starts_with(source, "https://github.com/") || starts_with(source, "ssh://git@github.com/")
        || starts_with(source, "git@github.com:") || short_source(source)
}

/// What is cloned for a source that reads as a URL or does not.
pub open spec fn clone_source(source: Seq<char>, parsed: Result<UrlView, Seq<char>>) -> Result<
    Seq<char>,
    Seq<char>,
> {
    if is_short_source(source) {
        Ok("https://github.com/"@ + source)
    } else {
        match parsed {
            Ok(url) => if url.host != Some("github.com"@) {
                Err("plugin install accepts GitHub repositories only"@)
            } else if url.username.len() > 0 || url.password is Some || url.query is Some {
                Err("GitHub source must not embed credentials or query parameters"@)
            } else {
                Ok(source)
            },
            Err(_) => if "git@github.com:"@.is_prefix_of(source) {
                Ok(source)
            } else {
                Err("plugin install requires an HTTPS or SSH GitHub repository URL"@)
            },
        }
    }
}

/// A URL as it was read, or why it was not.
pub open spec fn parts_view(parsed: Result<UrlParts, String>) -> Result<UrlView, Seq<char>> {
    match parsed {
        Ok(parts) => Ok(parts@),
        Err(message) => Err(message@),
    }
}

/// Decides what is cloned for a source that reads as a URL or does not.
pub fn clone_source_of(source: &str, parsed: &Result<UrlParts, String>) -> (out: Result<
    String,
    String,
>)
    ensures
        text_result(out) == clone_source(source@, parts_view(*parsed)),
{
    if short_source(source) {
        return Ok("https://github.com/".to_owned().concat(source));
    }
    match parsed {
        Ok(url) => {
            let at_github = match &url.host {
                Some(host) => same(host.as_str(), "github.com"),
                None => false,
            };
            if !at_github {
                return Err("plugin install accepts GitHub repositories only".to_owned());
            }
            if !url.username.as_str().is_empty() || url.password.is_some() || url.query.is_some() {
                return Err(
                    "GitHub source must not embed credentials or query parameters".to_owned(),
                );
            }
            Ok(source.to_owned())
        },
        Err(_) => if starts_with(source, "git@github.com:") {
            Ok(source.to_owned())
        } else {
            Err("plugin install requires an HTTPS or SSH GitHub repository URL".to_owned())
        },
    }
}

/// Decides what is cloned for a source.
pub fn github_clone_source(source: &str) -> (out: Result<String, String>)
    ensures
        text_result(out) == clone_source(source@, url_parse(source@)),
{
    clone_source_of(source, &parse_url(source))
}

/// A clone that failed.
pub fn clone_error(stderr: &str) -> (out: String)
    ensures
        out@ == "failed to clone plugin repository: "@ + crate::text::trimmed(stderr@),
{
    "failed to clone plugin repository: ".to_owned().concat(crate::text::trim(stderr).as_str())
}

/// An entry that can be installed.
pub open spec fn is_installable(entry: Tree) -> bool {
    inner_text(entry, "policy"@, "installation"@) != Some("NOT_AVAILABLE"@)
}

/// The names of the entries that can be installed.
pub open spec fn installable(entries: Seq<Tree>) -> Seq<Seq<char>>
    decreases entries.len(),
{
    if entries.len() == 0 {
        Seq::empty()
    } else {
        let before = installable(entries.drop_last());
        match text_field(entries.last(), "name"@) {
            Some(name) => if is_installable(entries.last()) {
                before.push(name)
            } else {
                before
            },
            None => before,
        }
    }
}

fn installable_names(entries: &Vec<Json>) -> (out: Vec<String>)
    ensures
        texts(out@) == installable(trees(entries@)),
{
    let mut out: Vec<String> = Vec::new();
    let mut i: usize = 0;
    while i < entries.len()
        invariant
            i <= entries@.len(),
            texts(out@) =~= installable(trees(entries@).take(i as int)),
        decreases entries@.len() - i,
    {
        let ghost before = out@;
        proof {
            assert(trees(entries@).take(i + 1).drop_last() =~= trees(entries@).take(i as int));
        }
        let blocked = match entries[i].inner_text("policy", "installation") {
            Some(policy) => same(policy, "NOT_AVAILABLE"),
            None => false,
        };
        if !blocked {
            match entries[i].text_field("name") {
                Some(name) => {
                    out.push(name.to_owned());
                    proof {
                        assert(texts(out@) =~= texts(before).push(name@));
                    }
                },
                None => {},
            }
        }
        i = i + 1;
    }
    proof {
        assert(trees(entries@).take(entries@.len() as int) =~= trees(entries@));
    }
    out
}

/// A plugin report that lists local servers.
pub open spec fn has_local_servers(report: Tree) -> bool {
    match items_field(report, "localServers"@) {
        Some(servers) => servers.len() > 0,
        None => false,
    }
}

/// A plugin that is reported on, alone or among the listed ones, brings a local runtime.
pub open spec fn brings_local_runtimes(report: Tree) -> bool {
    has_local_servers(report) || match items_field(report, "plugins"@) {
        Some(plugins) => exists|i: int|
            0 <= i < plugins.len() && #[trigger] has_local_servers(plugins[i]),
        None => false,
    }
}

proof fn lemma_brings(report: Tree, plugins: Seq<Tree>, i: int)
    requires
        items_field(report, "plugins"@) == Some(plugins),
        0 <= i < plugins.len(),
        has_local_servers(plugins[i]),
    ensures
        brings_local_runtimes(report),
{
    let found = items_field(report, "plugins"@)->0;
    assert(has_local_servers(found[i]));
}

fn local_servers(report: &Json) -> (yes: bool)
    ensures
        yes == has_local_servers(report@),
{
    match report.items_field("localServers") {
        Some(servers) => {
            proof {
                assert(trees(servers@).len() == servers@.len());
            }
            servers.len() > 0
        },
        None => false,
    }
}

fn local_runtimes(report: &Json) -> (yes: bool)
    ensures
        yes == brings_local_runtimes(report@),
{
    if local_servers(report) {
        return true;
    }
    let plugins = match report.items_field("plugins") {
        Some(plugins) => plugins,
        None => {
            return false;
        },
    };
    let mut i: usize = 0;
    while i < plugins.len()
        invariant
            i <= plugins@.len(),
            !has_local_servers(report@),
            items_field(report@, "plugins"@) == Some(trees(plugins@)),
            forall|j: int| 0 <= j < i ==> !has_local_servers(#[trigger] trees(plugins@)[j]),
        decreases plugins@.len() - i,
    {
        if local_servers(&plugins[i]) {
            proof {
                let all = trees(plugins@);
                assert(all[i as int] == tree(plugins@[i as int]));
                lemma_brings(report@, all, i as int);
            }
            return true;
        }
        proof {
            assert(trees(plugins@)[i as int] == tree(plugins@[i as int]));
        }
        i = i + 1;
    }
    false
}

/// The repository that a marketplace and the report on its plugins describe.
pub open spec fn offered(marketplace: Tree, report: Tree) -> Result<
    (Seq<char>, Seq<Seq<char>>, bool),
    Seq<char>,
> {
    match text_field(marketplace, "name"@) {
        Some(name) => if is_blank(name) {
            Err("marketplace name is required"@)
        } else {
            let plugins = match items_field(marketplace, "plugins"@) {
                Some(entries) => installable(entries),
                None => Seq::empty(),
            };
            if plugins.len() == 0 {
                Err("repository marketplace has no installable plugins"@)
            } else {
                Ok((name, plugins, brings_local_runtimes(report)))
            }
        },
        None => Err("marketplace name is required"@),
    }
}

/// What a repository offers, as its marketplace and the report on its plugins say.
pub open spec fn repository_view(out: Result<RemoteRepository, String>) -> Result<
    (Seq<char>, Seq<Seq<char>>, bool),
    Seq<char>,
> {
    match out {
        Ok(repository) => Ok(
            (repository.marketplace@, texts(repository.plugins@), repository.has_local_runtimes),
        ),
        Err(message) => Err(message@),
    }
}

/// Decides what a repository offers.
pub fn inspect_marketplace(marketplace: &Json, report: &Json) -> (out: Result<
    RemoteRepository,
    String,
>)
    ensures
        repository_view(out) == offered(marketplace@, report@),
{
    let name = match marketplace.text_field("name") {
        Some(name) => name,
        None => {
            return Err("marketplace name is required".to_owned());
        },
    };
    if blank(name) {
        return Err("marketplace name is required".to_owned());
    }
    let plugins = match marketplace.items_field("plugins") {
        Some(entries) => installable_names(entries),
        None => Vec::new(),
    };
    proof {
        assert(texts(plugins@).len() == plugins@.len());
        if items_field(marketplace@, "plugins"@) is None {
            assert(texts(plugins@) =~= Seq::<Seq<char>>::empty());
        }
    }
    if plugins.len() == 0 {
        return Err("repository marketplace has no installable plugins".to_owned());
    }
    Ok(
        RemoteRepository {
            marketplace: name.to_owned(),
            plugins,
            has_local_runtimes: local_runtimes(report),
        },
    )
}

/// Decides what a checked-out repository offers, from the text of its marketplace.
pub fn inspect_remote_checkout(marketplace: &str, report: &Json) -> (out: Result<
    RemoteRepository,
    String,
>)
    ensures
        repository_view(out) == match json_parse(marketplace@) {
            Ok(value) => offered(value, report@),
            Err(message) => Err(message),
        },
{
    match parse(marketplace) {
        Ok(value) => inspect_marketplace(&value, report),
        Err(message) => Err(message),
    }
}

/// The name of an entry, or nothing.
pub open spec fn entry_name(entry: Tree) -> Seq<char> {
    match text_field(entry, "name"@) {
        Some(name) => name,
        None => Seq::empty(),
    }
}

/// The path of a marketplace entry, or the first thing that is wrong with the entry.
pub open spec fn entry_path(entry: Tree) -> Result<Seq<char>, Seq<char>> {
    let name = entry_name(entry);
    let installation = inner_text(entry, "policy"@, "installation"@);
    let authentication = inner_text(entry, "policy"@, "authentication"@);
    match normalized(name) {
        Err(message) => Err(message),
        Ok(normal) => if normal != name {
            Err("marketplace plugin name is not normalized: "@ + name)
        } else if inner_text(entry, "source"@, "source"@) != Some("local"@) {
            Err("marketplace plugin "@ + name + " must use local source"@)
        } else if installation != Some("AVAILABLE"@) && installation != Some(
            "INSTALLED_BY_DEFAULT"@,
        ) && installation != Some("NOT_AVAILABLE"@) {
            Err("marketplace plugin "@ + name + " has invalid installation policy"@)
        } else if authentication != Some("ON_INSTALL"@) && authentication != Some("ON_USE"@) {
            Err("marketplace plugin "@ + name + " has invalid authentication policy"@)
        } else if text_field(entry, "category"@) is None {
            Err("marketplace plugin "@ + name + " requires category"@)
        } else {
            match inner_text(entry, "source"@, "path"@) {
                Some(path) => Ok(path),
                None => Err("marketplace plugin "@ + name + " requires source.path"@),
            }
        },
    }
}

fn about_entry(name: &str, fault: &str) -> (out: String)
    ensures
        out@ == "marketplace plugin "@ + name@ + fault@,
{
    "marketplace plugin ".to_owned().concat(name).concat(fault)
}

fn inner_is(entry: &Json, outer: &str, inner: &str, value: &str) -> (yes: bool)
    ensures
        yes == (inner_text(entry@, outer@, inner@) == Some(value@)),
{
    match entry.inner_text(outer, inner) {
        Some(t) => same(t, value),
        None => false,
    }
}

/// Checks a marketplace entry and gives its path.
pub fn validate_marketplace_entry(entry: &Json) -> (out: Result<String, String>)
    ensures
        text_result(out) == entry_path(entry@),
{
    let name = match entry.text_field("name") {
        Some(name) => name.to_owned(),
        None => {
            let none: String = String::new();
            proof {
                assert(none@ =~= Seq::<char>::empty());
            }
            none
        },
    };
    let name = name.as_str();
    match normalized_name(name) {
        Ok(normal) => if !same(normal.as_str(), name) {
            return Err("marketplace plugin name is not normalized: ".to_owned().concat(name));
        },
        Err(message) => {
            return Err(message);
        },
    }
    if !inner_is(entry, "source", "source", "local") {
        return Err(about_entry(name, " must use local source"));
    }
    if !inner_is(entry, "policy", "installation", "AVAILABLE") && !inner_is(
        entry,
        "policy",
        "installation",
        "INSTALLED_BY_DEFAULT",
    ) && !inner_is(entry, "policy", "installation", "NOT_AVAILABLE") {
        return Err(about_entry(name, " has invalid installation policy"));
    }
    if !inner_is(entry, "policy", "authentication", "ON_INSTALL") && !inner_is(
        entry,
        "policy",
        "authentication",
        "ON_USE",
    ) {
        return Err(about_entry(name, " has invalid authentication policy"));
    }
    if entry.text_field("category").is_none() {
        return Err(about_entry(name, " requires category"));
    }
    match entry.inner_text("source", "path") {
        Some(path) => Ok(path.to_owned()),
        None => Err(about_entry(name, " requires source.path")),
    }
}

/// Where a plugin path of a marketplace leads, or why it leads nowhere.
pub open spec fn resolved_path(style: PathStyle, root: Seq<char>, relative: Seq<char>) -> Result<
    Seq<char>,
    Seq<char>,
> {
    if !"./"@.is_prefix_of(relative) {
        Err("plugin path must start with ./: "@ + relative)
    } else if !leads_down(style, relative) {
        Err("plugin path escapes marketplace root: "@ + relative)
    } else {
        Ok(joined_path(style, root, relative))
    }
}

/// Finds where a plugin path of a marketplace leads.
pub fn resolve_relative(style: PathStyle, root: &str, relative: &str) -> (out: Result<
    String,
    String,
>)
    ensures
        text_result(out) == resolved_path(style, root@, relative@),
{
    if !starts_with(relative, "./") {
        return Err("plugin path must start with ./: ".to_owned().concat(relative));
    }
    if !stays_down(style, relative) {
        return Err("plugin path escapes marketplace root: ".to_owned().concat(relative));
    }
    proof {
        reveal_strlit("./");
    }
    Ok(join_path(style, root, relative))
}

/// A plugin path that is accepted leads to a place under the marketplace's root: it adds only
/// ordinary names.
pub proof fn lemma_plugin_path_stays_inside(
    style: PathStyle,
    root: Seq<char>,
    relative: Seq<char>,
)
    requires
        root.len() > 0,
        is_settled(style, root),
        resolved_path(style, root, relative) is Ok,
    ensures
        ({
            let path = resolved_path(style, root, relative)->Ok_0;
            &&& under(style, path, root)
            &&& forall|i: int|
                components(style, root).len() <= i < components(style, path).len() ==> (
                #[trigger] components(style, path)[i]) is Name
        }),
{
    reveal_strlit("./");
    let path = resolved_path(style, root, relative)->Ok_0;
    lemma_joined_components(style, root, relative);
    lemma_leads_down(style, relative);
    let inner = inner_parts(path_pieces(style, relative), false);
    assert forall|i: int|
        components(style, root).len() <= i < components(style, path).len() implies (
    #[trigger] components(style, path)[i]) is Name by {
        let k = i - components(style, root).len();
        assert(components(style, path)[i] == inner[k]);
        assert(components(style, relative)[lead(style, relative).len() + k] == inner[k]);
        lemma_no_dots(path_pieces(style, relative), k);
    }
}

/// Where the plugin of a marketplace entry is, or the first thing that is wrong with the entry.
pub open spec fn plugin_place(style: PathStyle, root: Seq<char>, entry: Tree) -> Result<
    Seq<char>,
    Seq<char>,
> {
    match entry_path(entry) {
        Ok(relative) => resolved_path(style, root, relative),
        Err(message) => Err(message),
    }
}

/// Finds where the plugin of a marketplace entry is.
pub fn plugin_path(style: PathStyle, root: &str, entry: &Json) -> (out: Result<String, String>)
    ensures
        text_result(out) == plugin_place(style, root@, entry@),
{
    match validate_marketplace_entry(entry) {
        Ok(relative) => resolve_relative(style, root, relative.as_str()),
        Err(message) => Err(message),
    }
}

/// The entries of a marketplace.
pub fn marketplace_entries(marketplace: &Json) -> (out: Result<&Vec<Json>, String>)
    ensures
        match out {
            Ok(entries) => items_field(marketplace@, "plugins"@) == Some(trees(entries@)),
            Err(message) => items_field(marketplace@, "plugins"@) is None && message@
                == "marketplace plugins must be an array"@,
        },
{
    match marketplace.items_field("plugins") {
        Some(entries) => Ok(entries),
        None => Err("marketplace plugins must be an array".to_owned()),
    }
}

/// The marketplace that a repository's file holds. A repository whose file cannot be read is
/// neither a plugin nor a marketplace.
pub open spec fn marketplace_in(
    path: Seq<char>,
    source: Result<Seq<char>, Seq<char>>,
    parsed: Result<Tree, Seq<char>>,
) -> Result<Tree, Seq<char>> {
    match source {
        Ok(_) => match parsed {
            Ok(marketplace) => Ok(marketplace),
            Err(error) => Err("invalid marketplace: "@ + error),
        },
        Err(error) => Err(
            path + " is neither a plugin nor a repository marketplace: "@ + error,
        ),
    }
}

/// Reads the marketplace of the repository at `path` from what reading its file gave.
pub fn read_marketplace(path: &str, source: Result<String, String>) -> (out: Result<Json, String>)
    ensures
        json_result(out) == marketplace_in(
            path@,
            text_result(source),
            match source {
                Ok(text) => json_parse(text@),
                Err(error) => Err(error@),
            },
        ),
{
    match source {
        Ok(text) => match parse(text.as_str()) {
            Ok(marketplace) => Ok(marketplace),
            Err(error) => Err("invalid marketplace: ".to_owned().concat(error.as_str())),
        },
        Err(error) => Err(
            path.to_owned().concat(" is neither a plugin nor a repository marketplace: ").concat(
                error.as_str(),
            ),
        ),
    }
}

/// The report on a marketplace whose plugins are all valid.
pub open spec fn marketplace_report_tree(marketplace: Tree, reports: Seq<Tree>) -> Tree {
    Tree::Object(
        map![
            "valid"@ => Tree::Bool(true),
            "marketplace"@ => field_or_null(marketplace, "name"@),
            "plugins"@ => Tree::Array(reports),
        ],
    )
}

/// The report on a marketplace whose plugins are all valid.
pub fn marketplace_report(marketplace: &Json, reports: Vec<Json>) -> (out: Json)
    ensures
        out@ == marketplace_report_tree(marketplace@, trees(reports@)),
{
    Json::Object(
        Object::new().with("valid", Json::Bool(true)).with(
            "marketplace",
            marketplace.field_or_null("name"),
        ).with("plugins", Json::Array(reports)),
    )
}

/// How a server of a plugin is reached.
#[derive(Debug, Clone, Copy, PartialEq, Eq, Structural)]
pub enum ServerKind {
    Remote,
    Local,
}

/// How a server is reached, given what its URL reads as, or what is wrong with it.
pub open spec fn server_kind(
    name: Seq<char>,
    server: Tree,
    parsed: Result<UrlView, Seq<char>>,
) -> Result<ServerKind, Seq<char>> {
    match text_field(server, "url"@) {
        Some(_) => match parsed {
            Err(error) => Err("MCP server "@ + name + " URL is invalid: "@ + error),
            Ok(url) => if url.scheme != "https"@ || url.host is None {
                Err("MCP server "@ + name + " must use an absolute HTTPS URL"@)
            } else if url.username.len() > 0 || url.password is Some {
                Err("MCP server "@ + name + " URL must not embed credentials"@)
            } else {
                Ok(ServerKind::Remote)
            },
        },
        None => if field(server, "command"@) is Some {
            Ok(ServerKind::Local)
        } else {
            Err("MCP server "@ + name + " requires url or command"@)
        },
    }
}

/// How a server is reached.
pub open spec fn server_of(name: Seq<char>, server: Tree) -> Result<ServerKind, Seq<char>> {
    server_kind(
        name,
        server,
        match text_field(server, "url"@) {
            Some(url) => url_parse(url),
            None => Err(Seq::empty()),
        },
    )
}

fn about_server(name: &str, fault: &str) -> (out: String)
    ensures
        out@ == "MCP server "@ + name@ + fault@,
{
    "MCP server ".to_owned().concat(name).concat(fault)
}

/// A kind of server, or what is wrong.
pub open spec fn kind_result(out: Result<ServerKind, String>) -> Result<ServerKind, Seq<char>> {
    match out {
        Ok(kind) => Ok(kind),
        Err(message) => Err(message@),
    }
}

/// Decides how a remote server is reached from what its URL reads as.
pub fn remote_server(name: &str, parsed: &Result<UrlParts, String>) -> (out: Result<
    ServerKind,
    String,
>)
    ensures
        forall|server: Tree| #[trigger]
            text_field(server, "url"@) is Some ==> kind_result(out) == server_kind(
                name@,
                server,
                parts_view(*parsed),
            ),
{
    match parsed {
        Ok(url) => {
            if !same(url.scheme.as_str(), "https") || url.host.is_none() {
                return Err(about_server(name, " must use an absolute HTTPS URL"));
            }
            if !url.username.as_str().is_empty() || url.password.is_some() {
                return Err(about_server(name, " URL must not embed credentials"));
            }
            Ok(ServerKind::Remote)
        },
        Err(error) => Err(about_server(name, " URL is invalid: ").concat(error.as_str())),
    }
}

/// Decides how a server is reached.
pub fn check_server(name: &str, server: &Json) -> (out: Result<ServerKind, String>)
    ensures
        kind_result(out) == server_of(name@, server@),
{
    match server.text_field("url") {
        Some(url) => remote_server(name, &parse_url(url)),
        None => if server.get("command").is_some() {
            Ok(ServerKind::Local)
        } else {
            Err(about_server(name, " requires url or command"))
        },
    }
}

/// The names of remote and of local servers.
pub ghost struct ServersView {
    pub remote: Seq<Seq<char>>,
    pub local: Seq<Seq<char>>,
}

/// The names of remote and of local servers.
#[derive(Debug, PartialEq, Eq)]
pub struct Servers {
    pub remote: Vec<String>,
    pub local: Vec<String>,
}

impl View for Servers {
    type V = ServersView;

    open spec fn view(&self) -> ServersView {
        ServersView { remote: texts(self.remote@), local: texts(self.local@) }
    }
}

/// The servers with these names, or what is wrong with the first one that is.
pub open spec fn sorted_out(servers: Map<Seq<char>, Tree>, names: Seq<Seq<char>>) -> Result<
    ServersView,
    Seq<char>,
>
    decreases names.len(),
{
    if names.len() == 0 {
        Ok(ServersView { remote: Seq::empty(), local: Seq::empty() })
    } else {
        match sorted_out(servers, names.drop_last()) {
            Ok(before) => match server_of(names.last(), servers[names.last()]) {
                Ok(ServerKind::Remote) => Ok(
                    ServersView { remote: before.remote.push(names.last()), ..before },
                ),
                Ok(ServerKind::Local) => Ok(
                    ServersView { local: before.local.push(names.last()), ..before },
                ),
                Err(message) => Err(message),
            },
            Err(message) => Err(message),
        }
    }
}

proof fn lemma_sorted_out_fails(servers: Map<Seq<char>, Tree>, names: Seq<Seq<char>>, n: int)
    requires
        0 <= n <= names.len(),
        sorted_out(servers, names.take(n)) is Err,
    ensures
        sorted_out(servers, names) == sorted_out(servers, names.take(n)),
    decreases names.len(),
{
    if n < names.len() {
        assert(names.drop_last().take(n) =~= names.take(n));
        lemma_sorted_out_fails(servers, names.drop_last(), n);
    } else {
        assert(names.take(n) =~= names);
    }
}

/// `names` are the keys of `map`, each once, in ascending order.
pub open spec fn is_listing<T>(names: Seq<Seq<char>>, map: Map<Seq<char>, T>) -> bool {
    &&& forall|i: int, j: int| #![trigger names[i], names[j]]
        0 <= i < j < names.len() ==> precedes(names[i], names[j])
    &&& forall|name: Seq<char>| #[trigger] map.contains_key(name) <==> names.contains(name)
}

/// A map has one listing.
pub proof fn lemma_listing_is_unique<T>(
    a: Seq<Seq<char>>,
    b: Seq<Seq<char>>,
    map: Map<Seq<char>, T>,
)
    requires
        is_listing(a, map),
        is_listing(b, map),
    ensures
        a == b,
{
    lemma_listing_starts_alike(a, b, map, a.len() as int);
    lemma_listing_starts_alike(b, a, map, b.len() as int);
    assert(a =~= b);
}

proof fn lemma_listing_starts_alike<T>(
    a: Seq<Seq<char>>,
    b: Seq<Seq<char>>,
    map: Map<Seq<char>, T>,
    n: int,
)
    requires
        is_listing(a, map),
        is_listing(b, map),
        0 <= n <= a.len(),
    ensures
        n <= b.len(),
        forall|i: int| 0 <= i < n ==> a[i] == b[i],
    decreases n,
{
    if n > 0 {
        let k = n - 1;
        lemma_listing_starts_alike(a, b, map, k);
        assert(a.contains(a[k]));
        assert(map.contains_key(a[k]));
        let p = choose|p: int| 0 <= p < b.len() && b[p] == a[k];
        if p < k {
            assert(a[p] == b[p]);
            lemma_precedes_asymmetric(a[p], a[k]);
        }
        assert(b.contains(b[k]));
        assert(map.contains_key(b[k]));
        let q = choose|q: int| 0 <= q < a.len() && a[q] == b[k];
        if q < k {
            assert(a[q] == b[q]);
            lemma_precedes_asymmetric(b[q], b[k]);
        } else if k < q && k < p {
            lemma_precedes_asymmetric(a[k], a[q]);
            assert(precedes(b[k], b[p]));
            lemma_precedes_asymmetric(b[k], b[p]);
        }
    }
}

/// The servers of a plugin, or the first thing that is wrong with them.
pub open spec fn plugin_servers(config: Tree, names: Seq<Seq<char>>) -> Result<
    ServersView,
    Seq<char>,
> {
    match field(config, "mcpServers"@) {
        Some(Tree::Object(servers)) => if names.len() == 0 {
            Err(".mcp.json requires at least one server"@)
        } else {
            sorted_out(servers, names)
        },
        _ => Err(".mcp.json requires mcpServers"@),
    }
}

/// The servers that a configuration lists, by name.
pub open spec fn listed_servers(config: Tree) -> Map<Seq<char>, Tree> {
    match field(config, "mcpServers"@) {
        Some(Tree::Object(servers)) => servers,
        _ => Map::empty(),
    }
}

/// Servers, or what is wrong with them.
pub open spec fn servers_result(out: Result<Servers, String>) -> Result<ServersView, Seq<char>> {
    match out {
        Ok(servers) => Ok(servers@),
        Err(message) => Err(message@),
    }
}

/// Sorts the servers of a plugin into remote and local ones, in the order of their names.
pub fn check_servers(config: &Json) -> (out: Result<Servers, String>)
    ensures
        exists|names: Seq<Seq<char>>| #[trigger]
            is_listing(names, listed_servers(config@)) && servers_result(out) == plugin_servers(
                config@,
                names,
            ),
{
    let servers = match config.get("mcpServers") {
        Some(value) => match value {
            Json::Object(servers) => servers,
            _ => {
                proof {
                    assert(is_listing(Seq::<Seq<char>>::empty(), listed_servers(config@)));
                }
                return Err(".mcp.json requires mcpServers".to_owned());
            },
        },
        None => {
            proof {
                assert(is_listing(Seq::<Seq<char>>::empty(), listed_servers(config@)));
            }
            return Err(".mcp.json requires mcpServers".to_owned());
        },
    };
    let n: usize = servers.len();
    let ghost names = servers.names();
    proof {
        assert(listed_servers(config@) == servers@);
        assert(is_listing(names, servers@));
    }
    if n == 0 {
        return Err(".mcp.json requires at least one server".to_owned());
    }
    let mut remote: Vec<String> = Vec::new();
    let mut local: Vec<String> = Vec::new();
    proof {
        assert(texts(remote@) =~= Seq::<Seq<char>>::empty());
        assert(texts(local@) =~= Seq::<Seq<char>>::empty());
    }
    let mut i: usize = 0;
    while i < n
        invariant
            i <= n,
            names == servers.names(),
            n == names.len(),
            n > 0,
            field(config@, "mcpServers"@) == Some(Tree::Object(servers@)),
            listed_servers(config@) == servers@,
            is_listing(names, servers@),
            sorted_out(servers@, names.take(i as int)) == Ok::<ServersView, Seq<char>>(
                ServersView { remote: texts(remote@), local: texts(local@) },
            ),
        decreases n - i,
    {
        let name = servers.name_at(i);
        proof {
            assert(names.take(i + 1).drop_last() =~= names.take(i as int));
        }
        let ghost earlier_remote = remote@;
        let ghost earlier_local = local@;
        match check_server(name.as_str(), servers.value_at(i)) {
            Ok(ServerKind::Remote) => {
                remote.push(name.clone());
                proof {
                    assert(texts(remote@) =~= texts(earlier_remote).push(name@));
                }
            },
            Ok(ServerKind::Local) => {
                local.push(name.clone());
                proof {
                    assert(texts(local@) =~= texts(earlier_local).push(name@));
                }
            },
            Err(message) => {
                proof {
                    lemma_sorted_out_fails(servers@, names, i + 1);
                }
                return Err(message);
            },
        }
        i = i + 1;
    }
    proof {
        assert(names.take(n as int) =~= names);
    }
    Ok(Servers { remote, local })
}

/// The name of a file in a directory.
#[derive(Debug, PartialEq, Eq)]
pub struct FileName(pub String);

impl Listed for FileName {
    open spec fn goes_before(&self, other: &Self) -> bool {
        precedes(self.0@, other.0@)
    }

    proof fn asymmetric(a: &Self, b: &Self) {
        lemma_precedes_asymmetric(a.0@, b.0@);
    }

    proof fn transitive(a: &Self, b: &Self, c: &Self) {
        lemma_precedes_total(a.0@, b.0@);
        lemma_precedes_total(b.0@, c.0@);
        if precedes(c.0@, a.0@) && a.0@ != b.0@ && b.0@ != c.0@ {
            lemma_precedes_transitive(a.0@, b.0@, c.0@);
            lemma_precedes_asymmetric(a.0@, c.0@);
        }
    }

    fn is_before(&self, other: &Self) -> (yes: bool) {
        match compare(self.0.as_str(), other.0.as_str()) {
            Rank::Before => true,
            Rank::Same => {
                proof {
                    if precedes(self.0@, other.0@) {
                        lemma_precedes_asymmetric(self.0@, other.0@);
                    }
                }
                false
            },
            Rank::After => {
                proof {
                    lemma_precedes_asymmetric(other.0@, self.0@);
                }
                false
            },
        }
    }
}

/// The names of files that are Markdown.
pub open spec fn markdown(names: Seq<FileName>) -> Seq<Seq<char>>
    decreases names.len(),
{
    if names.len() == 0 {
        Seq::empty()
    } else {
        let before = markdown(names.drop_last());
        if extension(names.last().0@) == Some("md"@) {
            before.push(names.last().0@)
        } else {
            before
        }
    }
}

/// Picks the Markdown files of a content directory, in the order of their names.
pub fn content_files(names: Vec<FileName>) -> (out: Vec<String>)
    ensures
        texts(out@) == markdown(arranged(names@)),
{
    let names = arrange(names);
    let mut out: Vec<String> = Vec::new();
    let mut i: usize = 0;
    while i < names.len()
        invariant
            i <= names@.len(),
            texts(out@) =~= markdown(names@.take(i as int)),
        decreases names@.len() - i,
    {
        let ghost before = out@;
        proof {
            assert(names@.take(i + 1).drop_last() =~= names@.take(i as int));
        }
        if has_extension(names[i].0.as_str(), "md") {
            out.push(names[i].0.clone());
            proof {
                assert(texts(out@) =~= texts(before).push(names@[i as int].0@));
            }
        }
        i = i + 1;
    }
    proof {
        assert(names@.take(names@.len() as int) =~= names@);
    }
    out
}

/// What a content file is for.
#[derive(Debug, Clone, Copy, PartialEq, Eq, Structural)]
pub enum SourceKind {
    Welcome,
    Tip,
    Announcement,
    Article,
}

/// The path of a content file in its plugin.
pub fn content_path(folder: &str, name: &str) -> (out: String)
    ensures
        out@ == "content/"@ + folder@ + "/"@ + name@,
{
    "content/".to_owned().concat(folder).concat("/").concat(name)
}

/// The version and the title that a manifest gives to a plugin.
pub open spec fn manifest_titles(manifest: Tree, name: Seq<char>) -> (Seq<char>, Seq<char>) {
    (
        match text_field(manifest, "version"@) {
            Some(version) => version,
            None => "0.0.0"@,
        },
        match inner_text(manifest, "interface"@, "displayName"@) {
            Some(title) => title,
            None => name,
        },
    )
}

/// The version and the title that a manifest gives to a plugin.
pub fn plugin_titles(manifest: &Json, name: &str) -> (out: (String, String))
    ensures
        (out.0@, out.1@) == manifest_titles(manifest@, name@),
{
    let version = match manifest.text_field("version") {
        Some(version) => version.to_owned(),
        None => "0.0.0".to_owned(),
    };
    let title = match manifest.inner_text("interface", "displayName") {
        Some(title) => title.to_owned(),
        None => name.to_owned(),
    };
    (version, title)
}

/// The files that every plugin has.
pub open spec fn required_paths() -> Seq<Seq<char>> {
    seq![
        "wrangler.toml"@,
        "worker/src/index.ts"@,
        "ui/index.html"@,
        "test/contract.test.mjs"@,
        ".github/workflows/deploy-cloudflare.yml"@,
    ]
}

/// The files that every plugin has.
pub fn required_files() -> (out: Vec<String>)
    ensures
        texts(out@) == required_paths(),
{
    let out = vec![
        "wrangler.toml".to_owned(),
        "worker/src/index.ts".to_owned(),
        "ui/index.html".to_owned(),
        "test/contract.test.mjs".to_owned(),
        ".github/workflows/deploy-cloudflare.yml".to_owned(),
    ];
    proof {
        assert(texts(out@) =~= required_paths());
    }
    out
}

/// The file at a position among the required ones is there.
pub open spec fn is_there(present: Seq<bool>, i: int) -> bool {
    0 <= i < present.len() && present[i]
}

/// Every required file is there.
pub open spec fn are_there(present: Seq<bool>) -> bool {
    forall|i: int| 0 <= i < required_paths().len() ==> #[trigger] is_there(present, i)
}

/// The message names the first required file that is not there.
pub open spec fn is_missing(present: Seq<bool>, message: Seq<char>) -> bool {
    exists|i: int|
        {
            &&& 0 <= i < required_paths().len()
            &&& !#[trigger] is_there(present, i)
            &&& forall|j: int| 0 <= j < i ==> #[trigger] is_there(present, j)
            &&& message == "plugin is missing required template file "@ + required_paths()[i]
        }
}

/// Checks that the required files are there; `present` says so of each, in their order.
pub fn check_required_files(present: &Vec<bool>) -> (out: Result<(), String>)
    ensures
        match out {
            Ok(_) => are_there(present@),
            Err(message) => is_missing(present@, message@),
        },
{
    let files = required_files();
    let mut i: usize = 0;
    while i < files.len()
        invariant
            i <= files@.len(),
            texts(files@) == required_paths(),
            forall|j: int| 0 <= j < i ==> #[trigger] is_there(present@, j),
        decreases files@.len() - i,
    {
        let there = i < present.len() && present[i];
        if !there {
            proof {
                assert(required_paths()[i as int] == files@[i as int]@);
                assert(!is_there(present@, i as int));
            }
            return Err(
                "plugin is missing required template file ".to_owned().concat(files[i].as_str()),
            );
        }
        i = i + 1;
    }
    proof {
        assert(texts(files@).len() == files@.len());
    }
    Ok(())
}

/// What is known of a plugin once everything about it was checked.
#[derive(Debug, PartialEq, Eq)]
pub struct PluginFacts {
    pub name: String,
    pub has_extension: bool,
    pub home_schema: String,
    pub content_revision: String,
    pub feed_items: u64,
    pub resources: u64,
}

/// The report on a valid plugin.
pub open spec fn plugin_report_tree(facts: PluginFacts, servers: ServersView) -> Tree {
    Tree::Object(
        map![
            "valid"@ => Tree::Bool(true),
            "plugin"@ => Tree::Text(facts.name@),
            "mahayanaExtension"@ => Tree::Bool(facts.has_extension),
            "homeSchema"@ => Tree::Text(facts.home_schema@),
            "contentRevision"@ => Tree::Text(facts.content_revision@),
            "feedItems"@ => Tree::Int(facts.feed_items as int),
            "resources"@ => Tree::Int(facts.resources as int),
            "remoteServers"@ => Tree::Array(
                Seq::new(servers.remote.len(), |i: int| Tree::Text(servers.remote[i])),
            ),
            "localServers"@ => Tree::Array(
                Seq::new(servers.local.len(), |i: int| Tree::Text(servers.local[i])),
            ),
            "localExecutionRequiresSeparateApproval"@ => Tree::Bool(servers.local.len() > 0),
            "checks"@ => Tree::Array(
                seq![
                    Tree::Text("manifest"@),
                    Tree::Text("content"@),
                    Tree::Text("mcp-config"@),
                    Tree::Text("https"@),
                    Tree::Text("cloudflare"@),
                    Tree::Text("contract-test"@),
                ],
            ),
        ],
    )
}

/// The report on a valid plugin.
pub fn plugin_report(facts: &PluginFacts, servers: &Servers) -> (out: Json)
    ensures
        out@ == plugin_report_tree(*facts, servers@),
{
    let checks = vec![
        "manifest".to_owned(),
        "content".to_owned(),
        "mcp-config".to_owned(),
        "https".to_owned(),
        "cloudflare".to_owned(),
        "contract-test".to_owned(),
    ];
    proof {
        assert(text_trees(checks@) =~= seq![
            Tree::Text("manifest"@),
            Tree::Text("content"@),
            Tree::Text("mcp-config"@),
            Tree::Text("https"@),
            Tree::Text("cloudflare"@),
            Tree::Text("contract-test"@),
        ]);
        assert(text_trees(servers.remote@) =~= Seq::new(
            servers@.remote.len(),
            |i: int| Tree::Text(servers@.remote[i]),
        ));
        assert(text_trees(servers.local@) =~= Seq::new(
            servers@.local.len(),
            |i: int| Tree::Text(servers@.local[i]),
        ));
    }
    Json::Object(
        Object::new().with("valid", Json::Bool(true)).with_text("plugin", facts.name.as_str()).with(
            "mahayanaExtension",
            Json::Bool(facts.has_extension),
        ).with_text("homeSchema", facts.home_schema.as_str()).with_text(
            "contentRevision",
            facts.content_revision.as_str(),
        ).with("feedItems", Json::Unsigned(facts.feed_items)).with(
            "resources",
            Json::Unsigned(facts.resources),
        ).with("remoteServers", Json::texts(&servers.remote)).with(
            "localServers",
            Json::texts(&servers.local),
        ).with(
            "localExecutionRequiresSeparateApproval",
            Json::Bool(servers.local.len() > 0),
        ).with("checks", Json::texts(&checks)),
    )
}

/// What the configuration of a plugin's servers and its manifest say.
#[derive(Debug, PartialEq, Eq)]
pub struct PluginChecks {
    pub servers: Servers,
    pub version: String,
    pub title: String,
}

/// The configuration of a plugin's servers, or why it cannot be had.
pub open spec fn server_config(
    path: Seq<char>,
    source: Result<Seq<char>, Seq<char>>,
    parsed: Result<Tree, Seq<char>>,
) -> Result<Tree, Seq<char>> {
    match source {
        Ok(_) => match parsed {
            Ok(config) => Ok(config),
            Err(error) => Err("invalid .mcp.json: "@ + error),
        },
        Err(error) => Err("failed to read "@ + path + ": "@ + error),
    }
}

/// The servers of a configuration by name; without one there are none.
pub open spec fn configured_servers(config: Result<Tree, Seq<char>>) -> Map<Seq<char>, Tree> {
    match config {
        Ok(config) => listed_servers(config),
        Err(_) => Map::empty(),
    }
}

/// What a text that was read holds as JSON, or why there is none.
pub open spec fn text_tree(source: Result<String, String>) -> Result<Tree, Seq<char>> {
    match source {
        Ok(text) => json_parse(text@),
        Err(error) => Err(error@),
    }
}

/// The plugin's servers come first, and then its manifest; what is wrong first is told.
pub open spec fn is_checked(
    name: Seq<char>,
    config: Result<Tree, Seq<char>>,
    manifest: Result<Tree, Seq<char>>,
    names: Seq<Seq<char>>,
    out: Result<PluginChecks, String>,
) -> bool {
    match config {
        Err(error) => out matches Err(message) && message@ == error,
        Ok(config) => match plugin_servers(config, names) {
            Err(error) => out matches Err(message) && message@ == error,
            Ok(servers) => match manifest {
                Err(error) => out matches Err(message) && message@ == error,
                Ok(manifest) => {
                    &&& out matches Ok(checks)
                    &&& checks.servers@ == servers
                    &&& (checks.version@, checks.title@) == manifest_titles(manifest, name)
                },
            },
        },
    }
}

/// Checks what reading a plugin's server configuration, at `mcp_path`, and its manifest gave.
pub fn check_plugin(
    name: &str,
    mcp_path: &str,
    mcp: Result<String, String>,
    manifest: Result<String, String>,
) -> (out: Result<PluginChecks, String>)
    ensures
        exists|names: Seq<Seq<char>>| #[trigger]
            is_listing(
                names,
                configured_servers(server_config(mcp_path@, text_result(mcp), text_tree(mcp))),
            ) && is_checked(
                name@,
                server_config(mcp_path@, text_result(mcp), text_tree(mcp)),
                text_tree(manifest),
                names,
                out,
            ),
{
    let ghost wanted = server_config(mcp_path@, text_result(mcp), text_tree(mcp));
    let config = match mcp {
        Ok(text) => match parse(text.as_str()) {
            Ok(config) => config,
            Err(error) => {
                proof {
                    assert(wanted is Err);
                    assert(is_listing(Seq::<Seq<char>>::empty(), configured_servers(wanted)));
                }
                return Err("invalid .mcp.json: ".to_owned().concat(error.as_str()));
            },
        },
        Err(error) => {
            proof {
                assert(wanted is Err);
                assert(is_listing(Seq::<Seq<char>>::empty(), configured_servers(wanted)));
            }
            return Err(
                "failed to read ".to_owned().concat(mcp_path).concat(": ").concat(error.as_str()),
            );
        },
    };
    let servers = check_servers(&config);
    proof {
        assert(wanted == Ok::<Tree, Seq<char>>(config@));
        let names = choose|names: Seq<Seq<char>>| #[trigger]
            is_listing(names, listed_servers(config@)) && servers_result(servers)
                == plugin_servers(config@, names);
        assert(is_listing(names, configured_servers(wanted)));
    }
    let servers = match servers {
        Ok(servers) => servers,
        Err(error) => {
            return Err(error);
        },
    };
    let manifest = match manifest {
        Ok(text) => match parse(text.as_str()) {
            Ok(manifest) => manifest,
            Err(error) => {
                return Err(error);
            },
        },
        Err(error) => {
            return Err(error);
        },
    };
    let (version, title) = plugin_titles(&manifest, name);
    Ok(PluginChecks { servers, version, title })
}

/// What compiling the content of a plugin gave.
#[derive(Debug, PartialEq, Eq)]
pub struct CompiledContent {
    pub home_schema: String,
    pub revision: String,
    pub feed_items: u64,
    pub resources: u64,
}

/// Finishes the validation of a plugin that was checked: its content must compile, and its
/// required files must be there.
pub fn finish_validation(
    name: String,
    has_extension: bool,
    checks: &PluginChecks,
    compiled: Result<CompiledContent, String>,
    present: &Vec<bool>,
) -> (out: Result<Json, String>)
    ensures
        match compiled {
            Err(error) => out matches Err(message) && message@ == error@,
            Ok(content) => match out {
                Ok(report) => are_there(present@) && report@ == plugin_report_tree(
                    PluginFacts {
                        name,
                        has_extension,
                        home_schema: content.home_schema,
                        content_revision: content.revision,
                        feed_items: content.feed_items,
                        resources: content.resources,
                    },
                    checks.servers@,
                ),
                Err(message) => is_missing(present@, message@),
            },
        },
{
    let content = match compiled {
        Ok(content) => content,
        Err(error) => {
            return Err(error);
        },
    };
    match check_required_files(present) {
        Ok(_) => {},
        Err(message) => {
            return Err(message);
        },
    }
    let facts = PluginFacts {
        name,
        has_extension,
        home_schema: content.home_schema,
        content_revision: content.revision,
        feed_items: content.feed_items,
        resources: content.resources,
    };
    Ok(plugin_report(&facts, &checks.servers))
}

/// The marketplace of a repository that has none yet.
pub open spec fn new_marketplace() -> Tree {
    Tree::Object(
        map![
            "name"@ => Tree::Text("mahayana-repository"@),
            "interface"@ => Tree::Object(
                map!["displayName"@ => Tree::Text("大乘仓库插件"@)],
            ),
            "plugins"@ => Tree::Array(Seq::empty()),
        ],
    )
}

/// The entry of a new plugin.
pub open spec fn new_entry(name: Seq<char>) -> Tree {
    Tree::Object(
        map![
            "name"@ => Tree::Text(name),
            "source"@ => Tree::Object(
                map![
                    "source"@ => Tree::Text("local"@),
                    "path"@ => Tree::Text("./plugins/"@ + name),
                ],
            ),
            "policy"@ => Tree::Object(
                map![
                    "installation"@ => Tree::Text("AVAILABLE"@),
                    "authentication"@ => Tree::Text("ON_INSTALL"@),
                ],
            ),
            "category"@ => Tree::Text("Productivity"@),
        ],
    )
}

/// A plugin of this name is listed.
pub open spec fn lists(entries: Seq<Tree>, name: Seq<char>) -> bool {
    exists|i: int| 0 <= i < entries.len() && #[trigger] is_entry(entries[i], name)
}

/// The entry is that of a plugin.
pub open spec fn is_entry(entry: Tree, name: Seq<char>) -> bool {
    text_field(entry, "name"@) == Some(name)
}

/// A marketplace with one more plugin, or why the plugin cannot be added.
pub open spec fn with_plugin(marketplace: Tree, name: Seq<char>) -> Result<Tree, Seq<char>> {
    match items_field(marketplace, "plugins"@) {
        Some(entries) => if lists(entries, name) {
            Err("marketplace already contains plugin "@ + name)
        } else {
            Ok(
                Tree::Object(
                    marketplace->Object_0.insert(
                        "plugins"@,
                        Tree::Array(entries.push(new_entry(name))),
                    ),
                ),
            )
        },
        None => Err("marketplace plugins must be an array"@),
    }
}

fn already_listed(entries: &Vec<Json>, name: &str) -> (yes: bool)
    ensures
        yes == lists(trees(entries@), name@),
{
    let mut i: usize = 0;
    while i < entries.len()
        invariant
            i <= entries@.len(),
            forall|j: int| 0 <= j < i ==> !#[trigger] is_entry(trees(entries@)[j], name@),
        decreases entries@.len() - i,
    {
        proof {
            assert(trees(entries@)[i as int] == tree(entries@[i as int]));
        }
        if entries[i].field_is("name", name) {
            proof {
                assert(is_entry(trees(entries@)[i as int], name@));
            }
            return true;
        }
        i = i + 1;
    }
    false
}

fn entry_for(name: &str) -> (out: Json)
    ensures
        out@ == new_entry(name@),
{
    let path = "./plugins/".to_owned().concat(name);
    let source = Object::new().with_text("source", "local").with_text("path", path.as_str());
    let policy = Object::new().with_text("installation", "AVAILABLE").with_text(
        "authentication",
        "ON_INSTALL",
    );
    Json::Object(
        Object::new().with_text("name", name).with("source", Json::Object(source)).with(
            "policy",
            Json::Object(policy),
        ).with_text("category", "Productivity"),
    )
}

/// Adds a plugin to a marketplace.
pub fn add_plugin(marketplace: &Json, name: &str) -> (out: Result<Json, String>)
    ensures
        json_result(out) == with_plugin(marketplace@, name@),
{
    let entries = match marketplace_entries(marketplace) {
        Ok(entries) => entries,
        Err(message) => {
            return Err(message);
        },
    };
    if already_listed(entries, name) {
        return Err("marketplace already contains plugin ".to_owned().concat(name));
    }
    let entries = appended(crate::json::copy_all(entries), entry_for(name));
    Ok(Json::Object(marketplace.fields().with("plugins", Json::Array(entries))))
}

fn empty_marketplace() -> (out: Json)
    ensures
        out@ == new_marketplace(),
{
    let none: Vec<Json> = Vec::new();
    proof {
        assert(trees(none@) =~= Seq::<Tree>::empty());
    }
    Json::Object(
        Object::new().with_text("name", "mahayana-repository").with(
            "interface",
            Json::Object(Object::new().with_text("displayName", "大乘仓库插件")),
        ).with("plugins", Json::Array(none)),
    )
}

/// The marketplace in a file that may not be there.
pub open spec fn existing_marketplace(existing: Option<Seq<char>>) -> Result<Tree, Seq<char>> {
    match existing {
        Some(text) => match json_parse(text) {
            Ok(value) => Ok(value),
            Err(error) => Err("invalid existing marketplace: "@ + error),
        },
        None => Ok(new_marketplace()),
    }
}

/// The marketplace in a file that may not be there, with one more plugin.
pub open spec fn extended_marketplace(existing: Option<Seq<char>>, name: Seq<char>) -> Result<
    Tree,
    Seq<char>,
> {
    match existing_marketplace(existing) {
        Ok(marketplace) => with_plugin(marketplace, name),
        Err(message) => Err(message),
    }
}

proof fn lemma_read_back_marketplace(marketplace: Tree, name: Seq<char>, found: Tree)
    requires
        with_plugin(marketplace, name) is Ok,
        alike(found, with_plugin(marketplace, name)->Ok_0),
    ensures
        with_plugin(found, name) == Err::<Tree, Seq<char>>(
            "marketplace already contains plugin "@ + name,
        ),
{
    let updated = with_plugin(marketplace, name)->Ok_0;
    lemma_added_plugin_is_listed(marketplace, name);
    lemma_alike_fields(found, updated, "plugins"@);
    let entries = items_field(updated, "plugins"@)->0;
    let i = choose|i: int| 0 <= i < entries.len() && #[trigger] is_entry(entries[i], name);
    let read = items_field(found, "plugins"@)->0;
    assert(alike(read[i], entries[i]));
    lemma_alike_fields(read[i], entries[i], "name"@);
    assert(is_entry(read[i], name));
}

/// A marketplace that reading accepts is accepted with one more plugin.
proof fn lemma_extended_nests(marketplace: Tree, name: Seq<char>)
    requires
        nests(marketplace, NESTING as nat),
        with_plugin(marketplace, name) is Ok,
    ensures
        nests(with_plugin(marketplace, name)->Ok_0, NESTING as nat),
{
    let fields = marketplace->Object_0;
    let entries = items_field(marketplace, "plugins"@)->0;
    let entry = new_entry(name);
    let longer = entries.push(entry);
    assert(nests(fields["plugins"@], 126));
    assert(nests(entry, 2)) by {
        assert forall|key: Seq<char>| #[trigger]
            entry->Object_0.contains_key(key) implies nests(entry->Object_0[key], 1) by {
            if let Tree::Object(inner) = entry->Object_0[key] {
                assert forall|k: Seq<char>| #[trigger] inner.contains_key(k) implies nests(
                    inner[k],
                    0,
                ) by {
                    assert(inner[k] is Text);
                }
            }
        }
    }
    lemma_nests_deeper(entry, 2, 125);
    assert forall|i: int| 0 <= i < longer.len() implies nests(#[trigger] longer[i], 125) by {
        if i < entries.len() {
            assert(nests(entries[i], 125));
        }
    }
    assert(nests(Tree::Array(longer), 126));
    let after = with_plugin(marketplace, name)->Ok_0->Object_0;
    assert forall|key: Seq<char>| #[trigger] after.contains_key(key) implies nests(
        after[key],
        126,
    ) by {
        if key != "plugins"@ {
            assert(fields.contains_key(key));
        }
    }
}

proof fn lemma_new_marketplace_nests()
    ensures
        nests(new_marketplace(), NESTING as nat),
{
    let fields = new_marketplace()->Object_0;
    assert forall|key: Seq<char>| #[trigger] fields.contains_key(key) implies nests(
        fields[key],
        1,
    ) by {
        if let Tree::Object(inner) = fields[key] {
            assert forall|k: Seq<char>| #[trigger] inner.contains_key(k) implies nests(
                inner[k],
                0,
            ) by {
                assert(inner[k] is Text);
            }
        }
    }
    assert(nests(new_marketplace(), 2));
    lemma_nests_deeper(new_marketplace(), 2, NESTING as nat);
}

/// The text of a marketplace file with one more plugin. `existing` is the text of the present
/// file, if there is one. To the new text the same plugin is not added again: it is already there.
pub fn update_marketplace(existing: Option<String>, name: &str) -> (out: Result<String, String>)
    ensures
        text_result(out) == match extended_marketplace(opt_view(existing), name@) {
            Ok(updated) => Ok(json_pretty(updated) + "\n"@),
            Err(message) => Err(message),
        },
        out matches Ok(text) ==> extended_marketplace(Some(text@), name@) == Err::<
            Tree,
            Seq<char>,
        >("marketplace already contains plugin "@ + name@),
{
    let marketplace = match existing {
        Some(text) => match parse(text.as_str()) {
            Ok(value) => value,
            Err(error) => {
                return Err("invalid existing marketplace: ".to_owned().concat(error.as_str()));
            },
        },
        None => empty_marketplace(),
    };
    match add_plugin(&marketplace, name) {
        Ok(updated) => {
            let text = pretty(&updated).concat("\n");
            proof {
                lemma_new_marketplace_nests();
                lemma_extended_nests(marketplace@, name@);
                lemma_read_back_marketplace(marketplace@, name@, json_parse(text@)->Ok_0);
            }
            Ok(text)
        },
        Err(message) => Err(message),
    }
}

/// A new plugin is listed once it was added, and what was listed before still is, in its place.
pub proof fn lemma_added_plugin_is_listed(marketplace: Tree, name: Seq<char>)
    requires
        with_plugin(marketplace, name) is Ok,
    ensures
        ({
            let before = items_field(marketplace, "plugins"@)->0;
            let after = items_field(with_plugin(marketplace, name)->Ok_0, "plugins"@);
            &&& after is Some
            &&& before.is_prefix_of(after->0)
            &&& lists(after->0, name)
        }),
        with_plugin(with_plugin(marketplace, name)->Ok_0, name) is Err,
{
    let before = items_field(marketplace, "plugins"@)->0;
    let after = before.push(new_entry(name));
    let updated = with_plugin(marketplace, name)->Ok_0;
    assert(items_field(updated, "plugins"@) == Some(after));
    assert(after.take(before.len() as int) =~= before);
    reveal_strlit("name");
    reveal_strlit("source");
    reveal_strlit("policy");
    reveal_strlit("category");
    assert("name"@.len() == 4 && "source"@.len() == 6 && "policy"@.len() == 6 && "category"@.len()
        == 8);
    assert(is_entry(after[before.len() as int], name));
}

/// The entry of a new plugin passes the checks of a marketplace, whose name is in normal form.
pub proof fn lemma_new_entry_is_valid(name: Seq<char>)
    requires
        normalized(name) == Ok::<Seq<char>, Seq<char>>(name),
    ensures
        entry_path(new_entry(name)) == Ok::<Seq<char>, Seq<char>>("./plugins/"@ + name),
        is_installable(new_entry(name)),
{
    reveal_strlit("name");
    reveal_strlit("source");
    reveal_strlit("policy");
    reveal_strlit("category");
    reveal_strlit("path");
    reveal_strlit("installation");
    reveal_strlit("authentication");
    reveal_strlit("AVAILABLE");
    reveal_strlit("NOT_AVAILABLE");
    assert("name"@.len() == 4 && "source"@.len() == 6 && "policy"@.len() == 6 && "category"@.len()
        == 8 && "path"@.len() == 4 && "installation"@.len() == 12 && "authentication"@.len() == 14);
    assert("source"@[0] != "policy"@[0]);
    assert("AVAILABLE"@.len() != "NOT_AVAILABLE"@.len());
    let entry = new_entry(name)->Object_0;
    assert(entry["name"@] == Tree::Text(name));
    let source = entry["source"@]->Object_0;
    assert(source["source"@] == Tree::Text("local"@));
    assert(source["path"@] == Tree::Text("./plugins/"@ + name));
    let policy = entry["policy"@]->Object_0;
    assert(policy["installation"@] == Tree::Text("AVAILABLE"@));
    assert(policy["authentication"@] == Tree::Text("ON_INSTALL"@));
}

/// A new plugin: its name and title.
#[derive(Debug, PartialEq, Eq)]
pub struct InitPlan {
    pub name: String,
    pub title: String,
}

/// The title of a new plugin: the one that was asked for, or else its name as it was given.
pub open spec fn init_title(requested_name: Seq<char>, requested_title: Option<Seq<char>>) -> Seq<
    char,
> {
    match requested_title {
        Some(title) => if is_blank(title) {
            crate::text::trimmed(requested_name)
        } else {
            crate::text::trimmed(title)
        },
        None => crate::text::trimmed(requested_name),
    }
}

/// Decides the name and title of a new plugin.
pub fn plan_init(requested_name: &str, requested_title: Option<&str>) -> (out: Result<
    InitPlan,
    String,
>)
    ensures
        match out {
            Ok(plan) => {
                &&& normalized(requested_name@) == Ok::<Seq<char>, Seq<char>>(plan.name@)
                &&& normalized(plan.name@) == Ok::<Seq<char>, Seq<char>>(plan.name@)
                &&& plan.title@ == init_title(
                    requested_name@,
                    match requested_title {
                        Some(title) => Some(title@),
                        None => None,
                    },
                )
            },
            Err(message) => normalized(requested_name@) == Err::<Seq<char>, Seq<char>>(message@),
        },
{
    let name = match normalized_name(requested_name) {
        Ok(name) => name,
        Err(message) => {
            return Err(message);
        },
    };
    let title = match requested_title {
        Some(title) => {
            let title = crate::text::trim(title);
            if title.as_str().is_empty() {
                crate::text::trim(requested_name)
            } else {
                title
            }
        },
        None => crate::text::trim(requested_name),
    };
    Ok(InitPlan { name, title })
}

/// The report on a new plugin.
pub open spec fn init_tree(
    name: Seq<char>,
    plugin_root: Seq<char>,
    marketplace: Seq<char>,
    files: Seq<Tree>,
    validation: Tree,
) -> Tree {
    Tree::Object(
        map![
            "created"@ => Tree::Bool(true),
            "plugin"@ => Tree::Text(name),
            "pluginRoot"@ => Tree::Text(plugin_root),
            "marketplace"@ => Tree::Text(marketplace),
            "files"@ => Tree::Array(files),
            "validation"@ => validation,
        ],
    )
}

/// The report on a new plugin.
pub fn init_report(
    name: &str,
    plugin_root: &str,
    marketplace: &str,
    files: &Vec<String>,
    validation: Json,
) -> (out: Json)
    ensures
        out@ == init_tree(name@, plugin_root@, marketplace@, text_trees(files@), validation@),
{
    Json::Object(
        Object::new().with("created", Json::Bool(true)).with_text("plugin", name).with_text(
            "pluginRoot",
            plugin_root,
        ).with_text("marketplace", marketplace).with("files", Json::texts(files)).with(
            "validation",
            validation,
        ),
    )
}

} // verus!
