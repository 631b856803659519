//! What plugin repositories come to: what is cloned, what counts as valid, and what a new plugin is
//! made of.

use crate::json::{field, flag_field, inner_field, inner_text, items_field, text_field, Tree};
use crate::json_text::json_pretty;
use crate::order::arranged;
use crate::path::{extension, leads_down, PathStyle};
use crate::path_join::joined_path;
use crate::plugin_dev::{
    clone_source, entry_path, init_title, init_tree, installable, is_checked, is_github_source,
    is_missing, lists, manifest_titles, markdown, marketplace_in, marketplace_report_tree,
    new_entry, offered, plugin_place, plugin_report_tree, plugin_servers, required_paths,
    server_config, server_kind, server_of, sorted_out, with_plugin, FileName, PluginChecks,
    PluginFacts, ServerKind, ServersView, SourceKind,
};
use crate::plugin_name::normalized;
use crate::plugin_plan::{
    content_of, left_to_validate, new_file_fault, new_plugin_fault, validation, ContentListing,
    ValidationView,
};
use crate::plugin_template::{
    announcement_text, article_text, contract_text, extension_tree, home_tree, manifest_tree,
    mcp_tree, package_tree, template, tip_text, ui_text, welcome_text, workflow_text,
    wrangler_text, CONTENT_COMPILER_SCRIPT, WORKER_SOURCE,
};
use crate::text::{count_of, is_blank, occurs, occurs_at, replaced, trimmed};
use crate::text_laws::lemma_counts_add_up;
use crate::url_text::UrlView;
use vstd::prelude::*;
use vstd::string::*;

verus! {

/// A source is on GitHub where its address says so, or where it is an owner and a repository with a
/// slash between them; a name alone is not.
pub proof fn lemma_sources_on_github(rest: Seq<char>, owner: Seq<char>, repository: Seq<char>)
    ensures
        is_github_source("https://github.com/"@ + rest),
        is_github_source("ssh://git@github.com/"@ + rest),
        is_github_source("git@github.com:"@ + rest),
        !owner.contains('/') && !owner.contains(':') && !repository.contains('/')
            && !repository.contains(':') ==> is_github_source(owner + seq!['/'] + repository),
        !owner.contains('/') && !owner.contains(':') ==> !is_github_source(owner),
{
    assert(("https://github.com/"@ + rest).take("https://github.com/"@.len() as int)
        =~= "https://github.com/"@);
    assert(("ssh://git@github.com/"@ + rest).take("ssh://git@github.com/"@.len() as int)
        =~= "ssh://git@github.com/"@);
    assert(("git@github.com:"@ + rest).take("git@github.com:"@.len() as int) =~= "git@github.com:"@);
    if !owner.contains('/') && !owner.contains(':') {
        reveal_strlit("https://github.com/");
        reveal_strlit("ssh://git@github.com/");
        reveal_strlit("git@github.com:");
        lemma_counts_add_up(owner, Seq::empty(), '/');
        if "https://github.com/"@.is_prefix_of(owner) {
            assert(owner.subrange(0, "https://github.com/"@.len() as int)[5] == ':');
            assert(owner[5] == ':');
        }
        if "ssh://git@github.com/"@.is_prefix_of(owner) {
            assert(owner.subrange(0, "ssh://git@github.com/"@.len() as int)[3] == ':');
            assert(owner[3] == ':');
        }
        if "git@github.com:"@.is_prefix_of(owner) {
            assert(owner.subrange(0, "git@github.com:"@.len() as int)[14] == ':');
            assert(owner[14] == ':');
        }
        if !repository.contains('/') && !repository.contains(':') {
            let whole = owner + seq!['/'] + repository;
            lemma_counts_add_up(owner + seq!['/'], repository, '/');
            lemma_counts_add_up(owner, seq!['/'], '/');
            lemma_counts_add_up(repository, Seq::empty(), '/');
            assert(!whole.contains(':')) by {
                if whole.contains(':') {
                    let k = choose|k: int| 0 <= k < whole.len() && whole[k] == ':';
                    if k < owner.len() {
                        assert(owner[k] == ':');
                    } else if k > owner.len() {
                        assert(repository[k - owner.len() - 1] == ':');
                    }
                }
            }
        }
    }
}

/// What is cloned is on GitHub and carries no credentials: a short source becomes its address, an
/// address is cloned as it is or refused, and so is a source of the shell.
pub proof fn lemma_what_is_cloned(source: Seq<char>, url: UrlView, error: Seq<char>)
    ensures
        ({
            let short = count_of(source, '/') == 1 && !source.contains(':');
            let safe = url.host == Some("github.com"@) && url.username.len() == 0 && url.password
                is None && url.query is None;
            &&& short ==> clone_source(source, Ok(url)) == Ok::<Seq<char>, Seq<char>>(
                "https://github.com/"@ + source,
            ) && clone_source(source, Err(error)) == clone_source(source, Ok(url))
            &&& !short && safe ==> clone_source(source, Ok(url)) == Ok::<Seq<char>, Seq<char>>(
                source,
            )
            &&& !short && !safe ==> clone_source(source, Ok(url)) is Err
            &&& !short && "git@github.com:"@.is_prefix_of(source) ==> clone_source(
                source,
                Err(error),
            ) == Ok::<Seq<char>, Seq<char>>(source)
            &&& !short && !"git@github.com:"@.is_prefix_of(source) ==> clone_source(
                source,
                Err(error),
            ) is Err
        }),
{
}

/// The plugins that a marketplace offers are those that it names, in their order, but for those
/// that are marked as not available.
pub proof fn lemma_plugins_that_are_offered(before: Seq<Tree>, entry: Tree)
    ensures
        installable(Seq::<Tree>::empty()).len() == 0,
        text_field(entry, "name"@) is Some && inner_text(entry, "policy"@, "installation"@) != Some(
            "NOT_AVAILABLE"@,
        ) ==> installable(before.push(entry)) == installable(before).push(
            text_field(entry, "name"@)->0,
        ),
        text_field(entry, "name"@) is None || inner_text(entry, "policy"@, "installation"@) == Some(
            "NOT_AVAILABLE"@,
        ) ==> installable(before.push(entry)) == installable(before),
{
    assert(before.push(entry).drop_last() =~= before);
}

/// A repository offers something where its marketplace has a name and a plugin that can be
/// installed, and then it is that marketplace with those plugins.
pub proof fn lemma_what_a_repository_offers(
    marketplace: Tree,
    report: Tree,
    name: Seq<char>,
    entries: Seq<Tree>,
)
    requires
        items_field(marketplace, "plugins"@) == Some(entries),
    ensures
        text_field(marketplace, "name"@) == Some(name) && !is_blank(name) && installable(
            entries,
        ).len() > 0 ==> (offered(marketplace, report) matches Ok((n, plugins, _)) && n == name
            && plugins == installable(entries)),
        text_field(marketplace, "name"@) is None ==> offered(marketplace, report) is Err,
        text_field(marketplace, "name"@) == Some(name) && is_blank(name) ==> offered(
            marketplace,
            report,
        ) is Err,
        installable(entries).len() == 0 ==> offered(marketplace, report) is Err,
{
}

/// An entry of a marketplace is valid exactly where its name is in normal form, its source is
/// local, its policies are known ones, and it has a category and a path, which is then its path.
pub proof fn lemma_valid_entries(entry: Tree, name: Seq<char>, path: Seq<char>)
    requires
        text_field(entry, "name"@) == Some(name),
    ensures
        ({
            let install = inner_text(entry, "policy"@, "installation"@);
            let sign_in = inner_text(entry, "policy"@, "authentication"@);
            &&& entry_path(entry) == Ok::<Seq<char>, Seq<char>>(path) <==> {
                &&& normalized(name) == Ok::<Seq<char>, Seq<char>>(name)
                &&& inner_text(entry, "source"@, "source"@) == Some("local"@)
                &&& install == Some("AVAILABLE"@) || install == Some("INSTALLED_BY_DEFAULT"@)
                    || install == Some("NOT_AVAILABLE"@)
                &&& sign_in == Some("ON_INSTALL"@) || sign_in == Some("ON_USE"@)
                &&& text_field(entry, "category"@) is Some
                &&& inner_text(entry, "source"@, "path"@) == Some(path)
            }
        }),
{
}

/// A server is remote where it has an address, which must be reached over HTTPS and carry no
/// credentials; it is local where it has none but a command; and it must be one of these.
pub proof fn lemma_kinds_of_servers(
    name: Seq<char>,
    server: Tree,
    url: UrlView,
    error: Seq<char>,
)
    ensures
        ({
            let address = text_field(server, "url"@);
            let safe = url.scheme == "https"@ && url.host is Some && url.username.len() == 0
                && url.password is None;
            &&& address is Some && safe ==> server_kind(name, server, Ok(url)) == Ok::<
                ServerKind,
                Seq<char>,
            >(ServerKind::Remote)
            &&& address is Some && !safe ==> server_kind(name, server, Ok(url)) is Err
            &&& address is Some ==> server_kind(name, server, Err(error)) is Err
            &&& address is None && field(server, "command"@) is Some ==> server_kind(
                name,
                server,
                Ok(url),
            ) == Ok::<ServerKind, Seq<char>>(ServerKind::Local)
            &&& address is None && field(server, "command"@) is None ==> server_kind(
                name,
                server,
                Ok(url),
            ) is Err
        }),
{
}

/// Every server is sorted out as what it is, and a server that is wrong spoils them all.
pub proof fn lemma_servers_are_sorted_out(
    servers: Map<Seq<char>, Tree>,
    names: Seq<Seq<char>>,
    name: Seq<char>,
)
    requires
        names.contains(name),
    ensures
        server_of(name, servers[name]) is Err ==> sorted_out(servers, names) is Err,
        sorted_out(servers, names) matches Ok(found) ==> {
            &&& found.remote.contains(name) <==> server_of(name, servers[name]) == Ok::<
                ServerKind,
                Seq<char>,
            >(ServerKind::Remote)
            &&& found.local.contains(name) <==> server_of(name, servers[name]) == Ok::<
                ServerKind,
                Seq<char>,
            >(ServerKind::Local)
            &&& found.remote.len() + found.local.len() == names.len()
        },
    decreases names.len(),
{
    let front = names.drop_last();
    let k = choose|k: int| 0 <= k < names.len() && names[k] == name;
    lemma_only_listed_servers(servers, names);
    if k < front.len() {
        assert(front[k] == name);
        lemma_servers_are_sorted_out(servers, front, name);
        if let Ok(found) = sorted_out(servers, names) {
            let before = sorted_out(servers, front)->Ok_0;
            lemma_pushed(before.remote, names.last(), name);
            lemma_pushed(before.local, names.last(), name);
        }
    } else {
        lemma_only_listed_servers(servers, front);
        if let Ok(found) = sorted_out(servers, names) {
            let before = sorted_out(servers, front)->Ok_0;
            lemma_pushed(before.remote, name, name);
            lemma_pushed(before.local, name, name);
            if front.contains(name) {
                lemma_servers_are_sorted_out(servers, front, name);
            }
        }
    }
}

proof fn lemma_pushed(items: Seq<Seq<char>>, x: Seq<char>, name: Seq<char>)
    ensures
        items.push(x).contains(name) <==> (items.contains(name) || x == name),
{
    let all = items.push(x);
    if items.contains(name) {
        let k = choose|k: int| 0 <= k < items.len() && items[k] == name;
        assert(all[k] == name);
    }
    if x == name {
        assert(all[items.len() as int] == name);
    }
    if all.contains(name) {
        let k = choose|k: int| 0 <= k < all.len() && all[k] == name;
        if k < items.len() {
            assert(items[k] == name);
        }
    }
}

proof fn lemma_only_listed_servers(servers: Map<Seq<char>, Tree>, names: Seq<Seq<char>>)
    ensures
        sorted_out(servers, names) matches Ok(found) ==> {
            &&& found.remote.len() + found.local.len() == names.len()
            &&& forall|n: Seq<char>| #[trigger] found.remote.contains(n) ==> names.contains(n)
            &&& forall|n: Seq<char>| #[trigger] found.local.contains(n) ==> names.contains(n)
        },
    decreases names.len(),
{
    if names.len() > 0 {
        let front = names.drop_last();
        lemma_only_listed_servers(servers, front);
        if let Ok(found) = sorted_out(servers, names) {
            let before = sorted_out(servers, front)->Ok_0;
            assert forall|n: Seq<char>| #[trigger] found.remote.contains(n) implies names.contains(
                n,
            ) by {
                lemma_pushed(before.remote, names.last(), n);
                lemma_pushed(front, names.last(), n);
                assert(front.push(names.last()) =~= names);
            }
            assert forall|n: Seq<char>| #[trigger] found.local.contains(n) implies names.contains(
                n,
            ) by {
                lemma_pushed(before.local, names.last(), n);
                lemma_pushed(front, names.last(), n);
                assert(front.push(names.last()) =~= names);
            }
        }
    }
}

/// A configuration must list servers, at least one of them.
pub proof fn lemma_servers_are_needed(config: Tree, names: Seq<Seq<char>>, servers: Map<Seq<char>, Tree>)
    ensures
        !(field(config, "mcpServers"@) matches Some(Tree::Object(_))) ==> plugin_servers(config, names)
            is Err,
        field(config, "mcpServers"@) == Some(Tree::Object(servers)) && names.len() == 0
            ==> plugin_servers(config, names) is Err,
        field(config, "mcpServers"@) == Some(Tree::Object(servers)) && names.len() > 0
            ==> plugin_servers(config, names) == sorted_out(servers, names),
{
}

/// A plugin that was checked has the servers of its configuration, and the version and the title
/// of its manifest, with its name for a title that is missing; what is wrong with either fails it.
pub proof fn lemma_plugin_is_checked(
    name: Seq<char>,
    config: Result<Tree, Seq<char>>,
    manifest: Result<Tree, Seq<char>>,
    names: Seq<Seq<char>>,
    out: Result<PluginChecks, String>,
    t: Seq<char>,
)
    requires
        is_checked(name, config, manifest, names, out),
    ensures
        config is Err || manifest is Err ==> out is Err,
        config matches Ok(c) ==> plugin_servers(c, names) is Err ==> out is Err,
        out matches Ok(checks) ==> {
            &&& plugin_servers(config->Ok_0, names) == Ok::<ServersView, Seq<char>>(checks.servers@)
            &&& text_field(manifest->Ok_0, "version"@) == Some(t) ==> checks.version@ == t
            &&& text_field(manifest->Ok_0, "version"@) is None ==> checks.version@ == "0.0.0"@
            &&& inner_text(manifest->Ok_0, "interface"@, "displayName"@) == Some(t)
                ==> checks.title@ == t
            &&& inner_text(manifest->Ok_0, "interface"@, "displayName"@) is None ==> checks.title@
                == name
        },
{
}

/// A file that could not be read, or is not what it should be, is told as such.
pub proof fn lemma_unreadable_files_are_told(path: Seq<char>, text: Seq<char>, tree: Tree, error: Seq<char>)
    ensures
        server_config(path, Ok(text), Ok(tree)) == Ok::<Tree, Seq<char>>(tree),
        server_config(path, Ok(text), Err(error)) == Err::<Tree, Seq<char>>(
            "invalid .mcp.json: "@ + error,
        ),
        server_config(path, Err(error), Ok(tree)) == Err::<Tree, Seq<char>>(
            "failed to read "@ + path + ": "@ + error,
        ),
        marketplace_in(path, Ok(text), Ok(tree)) == Ok::<Tree, Seq<char>>(tree),
        marketplace_in(path, Ok(text), Err(error)) == Err::<Tree, Seq<char>>(
            "invalid marketplace: "@ + error,
        ),
        marketplace_in(path, Err(error), Ok(tree)) == Err::<Tree, Seq<char>>(
            path + " is neither a plugin nor a repository marketplace: "@ + error,
        ),
{
}

/// The report on a valid plugin tells what is known of it, each fact under its own name, with all
/// its servers and whether it runs anything locally.
pub proof fn lemma_report_on_a_plugin(facts: PluginFacts, servers: ServersView)
    ensures
        ({
            let report = plugin_report_tree(facts, servers);
            &&& flag_field(report, "valid"@) == Some(true)
            &&& text_field(report, "plugin"@) == Some(facts.name@)
            &&& flag_field(report, "mahayanaExtension"@) == Some(facts.has_extension)
            &&& text_field(report, "homeSchema"@) == Some(facts.home_schema@)
            &&& text_field(report, "contentRevision"@) == Some(facts.content_revision@)
            &&& field(report, "feedItems"@) == Some(Tree::Int(facts.feed_items as int))
            &&& field(report, "resources"@) == Some(Tree::Int(facts.resources as int))
            &&& items_field(report, "remoteServers"@) matches Some(remote) && remote.len()
                == servers.remote.len() && forall|i: int|
                0 <= i < remote.len() ==> #[trigger] remote[i] == Tree::Text(servers.remote[i])
            &&& items_field(report, "localServers"@) matches Some(local) && local.len()
                == servers.local.len() && forall|i: int|
                0 <= i < local.len() ==> #[trigger] local[i] == Tree::Text(servers.local[i])
            &&& flag_field(report, "localExecutionRequiresSeparateApproval"@) == Some(
                servers.local.len() > 0,
            )
        }),
{
    reveal_strlit("valid");
    reveal_strlit("plugin");
    reveal_strlit("mahayanaExtension");
    reveal_strlit("homeSchema");
    reveal_strlit("contentRevision");
    reveal_strlit("feedItems");
    reveal_strlit("resources");
    reveal_strlit("remoteServers");
    reveal_strlit("localServers");
    reveal_strlit("localExecutionRequiresSeparateApproval");
    reveal_strlit("checks");
    assert("valid"@.len() == 5 && "plugin"@.len() == 6 && "mahayanaExtension"@.len() == 17
        && "homeSchema"@.len() == 10 && "contentRevision"@.len() == 15 && "feedItems"@.len() == 9
        && "resources"@.len() == 9 && "remoteServers"@.len() == 13 && "localServers"@.len() == 12
        && "localExecutionRequiresSeparateApproval"@.len() == 38 && "checks"@.len() == 6);
    assert("feedItems"@[0] != "resources"@[0] && "plugin"@[0] != "checks"@[0]);
}

/// The report on a marketplace names it and holds every report, and that on a new plugin tells
/// where everything is.
pub proof fn lemma_other_reports(
    marketplace: Tree,
    reports: Seq<Tree>,
    name: Seq<char>,
    root: Seq<char>,
    place: Seq<char>,
    validation: Tree,
)
    ensures
        flag_field(marketplace_report_tree(marketplace, reports), "valid"@) == Some(true),
        field(marketplace, "name"@) is Some ==> field(
            marketplace_report_tree(marketplace, reports),
            "marketplace"@,
        ) == field(marketplace, "name"@),
        items_field(marketplace_report_tree(marketplace, reports), "plugins"@) == Some(reports),
        flag_field(init_tree(name, root, place, reports, validation), "created"@) == Some(true),
        text_field(init_tree(name, root, place, reports, validation), "plugin"@) == Some(name),
        text_field(init_tree(name, root, place, reports, validation), "pluginRoot"@) == Some(root),
        text_field(init_tree(name, root, place, reports, validation), "marketplace"@) == Some(place),
        items_field(init_tree(name, root, place, reports, validation), "files"@) == Some(reports),
        field(init_tree(name, root, place, reports, validation), "validation"@) == Some(validation),
{
    reveal_strlit("valid");
    reveal_strlit("marketplace");
    reveal_strlit("plugins");
    reveal_strlit("created");
    reveal_strlit("plugin");
    reveal_strlit("pluginRoot");
    reveal_strlit("files");
    reveal_strlit("validation");
    assert("valid"@.len() == 5 && "marketplace"@.len() == 11 && "plugins"@.len() == 7
        && "created"@.len() == 7 && "plugin"@.len() == 6 && "pluginRoot"@.len() == 10
        && "files"@.len() == 5 && "validation"@.len() == 10);
    assert("pluginRoot"@[0] != "validation"@[0]);
}

/// Every plugin has its worker and its configuration, its page, its test and its workflow; the
/// first that is missing is named.
pub proof fn lemma_files_that_are_needed(present: Seq<bool>, message: Seq<char>)
    ensures
        required_paths().contains("wrangler.toml"@),
        required_paths().contains("worker/src/index.ts"@),
        required_paths().contains("ui/index.html"@),
        required_paths().contains("test/contract.test.mjs"@),
        required_paths().contains(".github/workflows/deploy-cloudflare.yml"@),
        required_paths().len() == 5,
        is_missing(present, message) ==> exists|i: int|
            0 <= i < 5 && message == "plugin is missing required template file "@
                + #[trigger] required_paths()[i] && (i >= present.len() || !present[i]),
{
    let paths = required_paths();
    assert(paths[0] == "wrangler.toml"@ && paths[1] == "worker/src/index.ts"@ && paths[2]
        == "ui/index.html"@ && paths[3] == "test/contract.test.mjs"@ && paths[4]
        == ".github/workflows/deploy-cloudflare.yml"@);
}

/// Content is compiled whole: of every folder each Markdown file and no other, and the welcome text
/// first where there is one.
pub proof fn lemma_content_that_is_compiled(before: Seq<FileName>, file: FileName, listing: ContentListing)
    ensures
        markdown(Seq::<FileName>::empty()).len() == 0,
        extension(file.0@) == Some("md"@) ==> markdown(before.push(file)) == markdown(before).push(
            file.0@,
        ),
        extension(file.0@) != Some("md"@) ==> markdown(before.push(file)) == markdown(before),
        content_of(listing).len() == (if listing.has_welcome {
            1nat
        } else {
            0
        }) + markdown(arranged(listing.tips@)).len() + markdown(
            arranged(listing.announcements@),
        ).len() + markdown(arranged(listing.articles@)).len(),
        listing.has_welcome ==> content_of(listing)[0].path == "content/welcome.md"@ && content_of(
            listing,
        )[0].kind == SourceKind::Welcome,
{
    assert(before.push(file).drop_last() =~= before);
}

/// The files of each folder are compiled under their own kind and path, and the folders in their
/// order.
pub proof fn lemma_order_of_the_content(listing: ContentListing, i: int)
    ensures
        ({
            let all = content_of(listing);
            let tips = markdown(arranged(listing.tips@));
            let news = markdown(arranged(listing.announcements@));
            let articles = markdown(arranged(listing.articles@));
            let first: int = if listing.has_welcome {
                1
            } else {
                0
            };
            &&& 0 <= i < tips.len() ==> all[first + i].kind == SourceKind::Tip && all[first + i].path
                == "content/"@ + "tips"@ + "/"@ + tips[i]
            &&& 0 <= i < news.len() ==> all[first + tips.len() + i].kind == SourceKind::Announcement
                && all[first + tips.len() + i].path == "content/"@ + "announcements"@ + "/"@
                + news[i]
            &&& 0 <= i < articles.len() ==> all[first + tips.len() + news.len() + i].kind
                == SourceKind::Article && all[first + tips.len() + news.len() + i].path
                == "content/"@ + "articles"@ + "/"@ + articles[i]
        }),
{
}

/// The entry of a new plugin names it and leads to its directory; adding it changes nothing else of
/// the marketplace, and a plugin that is listed already is not added.
pub proof fn lemma_new_plugin_is_added(
    marketplace: Tree,
    entries: Seq<Tree>,
    name: Seq<char>,
    other: Seq<char>,
)
    requires
        items_field(marketplace, "plugins"@) == Some(entries),
    ensures
        text_field(new_entry(name), "name"@) == Some(name),
        inner_text(new_entry(name), "source"@, "source"@) == Some("local"@),
        inner_text(new_entry(name), "source"@, "path"@) == Some("./plugins/"@ + name),
        lists(entries, name) ==> with_plugin(marketplace, name) == Err::<Tree, Seq<char>>(
            "marketplace already contains plugin "@ + name,
        ),
        !lists(entries, name) ==> (with_plugin(marketplace, name) matches Ok(after) && items_field(
            after,
            "plugins"@,
        ) == Some(entries.push(new_entry(name))) && (other != "plugins"@ ==> field(after, other)
            == field(marketplace, other))),
{
    reveal_strlit("name");
    reveal_strlit("source");
    reveal_strlit("policy");
    reveal_strlit("category");
    reveal_strlit("path");
    assert("name"@.len() == 4 && "source"@.len() == 6 && "policy"@.len() == 6 && "category"@.len()
        == 8 && "path"@.len() == 4);
    assert("source"@[0] != "policy"@[0]);
    let entry = new_entry(name)->Object_0;
    let source = entry["source"@]->Object_0;
    assert(source["source"@] == Tree::Text("local"@));
    assert(source["path"@] == Tree::Text("./plugins/"@ + name));
}

/// The title of a new plugin is the one that was asked for, or its name as it was given.
pub proof fn lemma_title_of_a_new_plugin(name: Seq<char>, title: Seq<char>)
    ensures
        !is_blank(title) ==> init_title(name, Some(title)) == trimmed(title),
        is_blank(title) ==> init_title(name, Some(title)) == trimmed(name),
        init_title(name, None) == trimmed(name),
{
}

/// A new plugin bears its name and its title in its files: the manifest, the package and the home
/// page name it, its one server is reached over HTTPS under its name, and its page and its welcome
/// show the title.
pub proof fn lemma_new_plugin_bears_its_name(name: Seq<char>, title: Seq<char>)
    ensures
        text_field(manifest_tree(name, title), "name"@) == Some(name),
        inner_text(manifest_tree(name, title), "interface"@, "displayName"@) == Some(title),
        text_field(manifest_tree(name, title), "mcpServers"@) == Some("./.mcp.json"@),
        text_field(package_tree(name), "name"@) == Some("@mahayana/"@ + name),
        inner_text(home_tree(name, title), "app"@, "id"@) == Some(name),
        inner_text(home_tree(name, title), "app"@, "title"@) == Some(title),
        field(mcp_tree(name), "mcpServers"@) matches Some(servers) && inner_text(
            servers,
            name,
            "url"@,
        ) == Some("https://"@ + name + "-mcp.workers.dev/mcp"@) && inner_field(
            servers,
            name,
            "command"@,
        ) is None,
        inner_text(extension_tree(), "miniapp"@, "entry"@) == Some("./ui/index.html"@),
        template(name, title).contains_key(".mcp.json"@) && template(name, title)[".mcp.json"@]
            == json_pretty(mcp_tree(name)) + "\n"@,
        template(name, title)["package.json"@] == json_pretty(package_tree(name)) + "\n"@,
        template(name, title)["ui/index.html"@] == ui_text(title),
        template(name, title)["wrangler.toml"@] == wrangler_text(name),
        template(name, title)["content/welcome.md"@] == welcome_text(title),
        occurs(ui_text(title), title),
        occurs(welcome_text(title), title),
{
    reveal_strlit("name");
    reveal_strlit("version");
    reveal_strlit("description");
    reveal_strlit("author");
    reveal_strlit("repository");
    reveal_strlit("license");
    reveal_strlit("mcpServers");
    reveal_strlit("interface");
    assert("name"@.len() == 4 && "version"@.len() == 7 && "description"@.len() == 11
        && "author"@.len() == 6 && "repository"@.len() == 10 && "license"@.len() == 7
        && "mcpServers"@.len() == 10 && "interface"@.len() == 9);
    assert("repository"@[0] != "mcpServers"@[0]);
    reveal_strlit("displayName");
    reveal_strlit("shortDescription");
    reveal_strlit("longDescription");
    reveal_strlit("developerName");
    reveal_strlit("category");
    reveal_strlit("capabilities");
    assert("displayName"@.len() == 11 && "shortDescription"@.len() == 16 && "longDescription"@.len()
        == 15 && "developerName"@.len() == 13 && "category"@.len() == 8 && "capabilities"@.len()
        == 12);
    let interface = manifest_tree(name, title)->Object_0["interface"@]->Object_0;
    assert(interface["displayName"@] == Tree::Text(title));
    reveal_strlit("private");
    reveal_strlit("type");
    reveal_strlit("scripts");
    reveal_strlit("engines");
    reveal_strlit("devDependencies");
    assert("private"@.len() == 7 && "type"@.len() == 4 && "scripts"@.len() == 7 && "engines"@.len()
        == 7 && "devDependencies"@.len() == 15 && "name"@[0] != "type"@[0]);
    reveal_strlit("schema");
    reveal_strlit("revision");
    reveal_strlit("app");
    reveal_strlit("welcome");
    reveal_strlit("tips");
    reveal_strlit("quickReplies");
    reveal_strlit("feed");
    reveal_strlit("id");
    reveal_strlit("title");
    assert("schema"@.len() == 6 && "revision"@.len() == 8 && "app"@.len() == 3 && "welcome"@.len()
        == 7 && "tips"@.len() == 4 && "quickReplies"@.len() == 12 && "feed"@.len() == 4
        && "id"@.len() == 2 && "title"@.len() == 5);
    let app = home_tree(name, title)->Object_0["app"@]->Object_0;
    assert(app["id"@] == Tree::Text(name) && app["title"@] == Tree::Text(title));
    reveal_strlit("url");
    reveal_strlit("command");
    assert("url"@.len() == 3 && "command"@.len() == 7);
    let server = mcp_tree(name)->Object_0["mcpServers"@]->Object_0[name]->Object_0;
    assert(server["url"@] == Tree::Text("https://"@ + name + "-mcp.workers.dev/mcp"@));
    reveal_strlit("schemaVersion");
    reveal_strlit("miniapp");
    reveal_strlit("commands");
    reveal_strlit("gates");
    reveal_strlit("entry");
    reveal_strlit("bridgeVersion");
    reveal_strlit("permissions");
    assert("schemaVersion"@.len() == 13 && "miniapp"@.len() == 7 && "commands"@.len() == 8
        && "gates"@.len() == 5 && "entry"@.len() == 5 && "bridgeVersion"@.len() == 13
        && "permissions"@.len() == 11);
    let miniapp = extension_tree()->Object_0["miniapp"@]->Object_0;
    assert(miniapp["entry"@] == Tree::Text("./ui/index.html"@));
    reveal_strlit(".codex-plugin/plugin.json");
    reveal_strlit(".mcp.json");
    reveal_strlit(".mahayana/plugin.json");
    reveal_strlit("content/welcome.md");
    reveal_strlit("content/tips/getting-started.md");
    reveal_strlit("content/announcements/launch.md");
    reveal_strlit("content/articles/guide.md");
    reveal_strlit("ui/index.html");
    reveal_strlit("worker/src/index.ts");
    reveal_strlit("worker/src/content.generated.ts");
    reveal_strlit("scripts/compile-content.mjs");
    reveal_strlit("package.json");
    reveal_strlit("wrangler.toml");
    reveal_strlit("test/contract.test.mjs");
    reveal_strlit(".github/workflows/deploy-cloudflare.yml");
    assert(".mcp.json"@.len() == 9 && "package.json"@.len() == 12 && "ui/index.html"@.len() == 13
        && "wrangler.toml"@.len() == 13 && "content/welcome.md"@.len() == 18
        && "worker/src/index.ts"@.len() == 19 && "test/contract.test.mjs"@.len() == 22
        && "scripts/compile-content.mjs"@.len() == 27
        && ".github/workflows/deploy-cloudflare.yml"@.len() == 39
        && "worker/src/content.generated.ts"@.len() == 31
        && "content/tips/getting-started.md"@.len() == 31
        && "content/announcements/launch.md"@.len() == 31 && "content/articles/guide.md"@.len() == 25
        && ".mahayana/plugin.json"@.len() == 21 && ".codex-plugin/plugin.json"@.len() == 25);
    assert("ui/index.html"@[0] != "wrangler.toml"@[0]);
    lemma_title_occurs_in_page(title);
}

proof fn lemma_title_occurs_in_page(title: Seq<char>)
    ensures
        occurs(ui_text(title), title),
        occurs(welcome_text(title), title),
{
    let page = ui_text(title);
    let front =
        "<!doctype html><html lang=\"zh-CN\"><head><meta charset=\"utf-8\"><meta name=\"viewport\" content=\"width=device-width,initial-scale=1\"><meta http-equiv=\"Content-Security-Policy\" content=\"default-src 'none'; style-src 'unsafe-inline'\"><title>"@;
    let n = front.len() as int;
    assert(page.subrange(n, n + title.len()) =~= title);
    assert(occurs_at(page, title, n));
    let welcome = welcome_text(title);
    let start = "---\nid: welcome\nrevision: '1'\n---\n欢迎来到 **"@;
    let m = start.len() as int;
    assert(welcome.subrange(m, m + title.len()) =~= title);
    assert(occurs_at(welcome, title, m));
}

/// Nothing that is there is overwritten, and what is refused is named.
pub proof fn lemma_nothing_is_overwritten(path: Seq<char>)
    ensures
        new_plugin_fault(path, false) is None,
        new_file_fault(path, false) is None,
        new_plugin_fault(path, true) matches Some(message) && path.is_suffix_of(message),
        new_file_fault(path, true) matches Some(message) && path.is_suffix_of(message),
{
    let a = new_plugin_fault(path, true)->0;
    let b = new_file_fault(path, true)->0;
    assert(a.subrange(a.len() - path.len(), a.len() as int) =~= path);
    assert(b.subrange(b.len() - path.len(), b.len() as int) =~= path);
}

/// A directory with a plugin's manifest is validated as that plugin, and any other by every plugin
/// that its marketplace lists, each where its entry leads, in their order; a checkout that is itself
/// a plugin has those validated too.
pub proof fn lemma_what_is_validated(
    style: PathStyle,
    path: Seq<char>,
    marketplace: Tree,
    entries: Seq<Tree>,
    error: Seq<char>,
    i: int,
)
    requires
        items_field(marketplace, "plugins"@) == Some(entries),
        0 <= i < entries.len(),
    ensures
        validation(style, path, true, Err(error)) == Ok::<ValidationView, Seq<char>>(
            ValidationView::Plugin,
        ),
        validation(style, path, false, Err(error)) == Err::<ValidationView, Seq<char>>(error),
        validation(style, path, false, Ok(marketplace)) matches Ok(
            ValidationView::Marketplace { marketplace: listed, places },
        ) && listed == marketplace && places.len() == entries.len() && places[i] == plugin_place(
            style,
            path,
            entries[i],
        ),
        left_to_validate(style, path, true, marketplace).len() == entries.len(),
        left_to_validate(style, path, true, marketplace)[i] == plugin_place(style, path, entries[i]),
        left_to_validate(style, path, false, marketplace).len() == 0,
{
}

/// Where a plugin is: where its path leads from the root of the marketplace.
pub proof fn lemma_place_of_a_plugin(style: PathStyle, root: Seq<char>, entry: Tree, relative: Seq<char>)
    requires
        entry_path(entry) == Ok::<Seq<char>, Seq<char>>(relative),
    ensures
        "./"@.is_prefix_of(relative) && leads_down(style, relative) ==> plugin_place(
            style,
            root,
            entry,
        ) == Ok::<Seq<char>, Seq<char>>(joined_path(style, root, relative)),
        !"./"@.is_prefix_of(relative) || !leads_down(style, relative) ==> plugin_place(
            style,
            root,
            entry,
        ) is Err,
{
}

/// Every file of a new plugin holds its own content, and there are no other files.
pub proof fn lemma_files_of_a_new_plugin(name: Seq<char>, title: Seq<char>, path: Seq<char>)
    ensures
        ({
            let files = template(name, title);
            &&& files[".codex-plugin/plugin.json"@] == json_pretty(manifest_tree(name, title))
                + "\n"@
            &&& files[".mahayana/plugin.json"@] == json_pretty(extension_tree()) + "\n"@
            &&& files["content/tips/getting-started.md"@] == tip_text()
            &&& files["content/announcements/launch.md"@] == announcement_text()
            &&& files["content/articles/guide.md"@] == article_text()
            &&& files["scripts/compile-content.mjs"@] == CONTENT_COMPILER_SCRIPT@
            &&& files["worker/src/index.ts"@] == replaced(WORKER_SOURCE@, "__PLUGIN_NAME__"@, name)
            &&& files["worker/src/content.generated.ts"@] == "export const HOME = "@ + json_pretty(
                home_tree(name, title),
            ) + " as const;\nexport const RESOURCES: Record<string,string> = {};\n"@
            &&& files["test/contract.test.mjs"@] == contract_text(name)
            &&& files[".github/workflows/deploy-cloudflare.yml"@] == workflow_text(name)
            &&& files.contains_key(path) ==> {
                ||| path == ".codex-plugin/plugin.json"@ || path == ".mcp.json"@
                ||| path == ".mahayana/plugin.json"@ || path == "content/welcome.md"@
                ||| path == "content/tips/getting-started.md"@
                ||| path == "content/announcements/launch.md"@
                ||| path == "content/articles/guide.md"@ || path == "ui/index.html"@
                ||| path == "worker/src/index.ts"@ || path == "worker/src/content.generated.ts"@
                ||| path == "scripts/compile-content.mjs"@ || path == "package.json"@
                ||| path == "wrangler.toml"@ || path == "test/contract.test.mjs"@
                ||| path == ".github/workflows/deploy-cloudflare.yml"@
            }
        }),
{
    reveal_strlit(".codex-plugin/plugin.json");
    reveal_strlit(".mcp.json");
    reveal_strlit(".mahayana/plugin.json");
    reveal_strlit("content/welcome.md");
    reveal_strlit("content/tips/getting-started.md");
    reveal_strlit("content/announcements/launch.md");
    reveal_strlit("content/articles/guide.md");
    reveal_strlit("ui/index.html");
    reveal_strlit("worker/src/index.ts");
    reveal_strlit("worker/src/content.generated.ts");
    reveal_strlit("scripts/compile-content.mjs");
    reveal_strlit("package.json");
    reveal_strlit("wrangler.toml");
    reveal_strlit("test/contract.test.mjs");
    reveal_strlit(".github/workflows/deploy-cloudflare.yml");
    assert(".mcp.json"@.len() == 9 && "package.json"@.len() == 12 && "ui/index.html"@.len() == 13
        && "wrangler.toml"@.len() == 13 && "content/welcome.md"@.len() == 18
        && "worker/src/index.ts"@.len() == 19 && "test/contract.test.mjs"@.len() == 22
        && "scripts/compile-content.mjs"@.len() == 27
        && ".github/workflows/deploy-cloudflare.yml"@.len() == 39
        && "worker/src/content.generated.ts"@.len() == 31
        && "content/tips/getting-started.md"@.len() == 31
        && "content/announcements/launch.md"@.len() == 31 && "content/articles/guide.md"@.len() == 25
        && ".mahayana/plugin.json"@.len() == 21 && ".codex-plugin/plugin.json"@.len() == 25);
    assert(".codex-plugin/plugin.json"@[0] != "content/articles/guide.md"@[0]);
    assert("worker/src/content.generated.ts"@[0] != "content/tips/getting-started.md"@[0]);
    assert("worker/src/content.generated.ts"@[0] != "content/announcements/launch.md"@[0]);
    assert("content/tips/getting-started.md"@[8] != "content/announcements/launch.md"@[8]);
}

/// A new plugin is deployed and tested under its name.
pub proof fn lemma_new_plugin_is_deployed_under_its_name(name: Seq<char>)
    ensures
        wrangler_text(name) == "name = \""@ + name
            + "-mcp\"\nmain = \"worker/src/index.ts\"\ncompatibility_date = \"2026-07-19\"\n"@,
        occurs(workflow_text(name), name),
        occurs(contract_text(name), name),
{
    let start =
        "name: Deploy Cloudflare\non:\n  push:\n    branches: [main]\n  workflow_dispatch:\njobs:\n  deploy:\n    runs-on: ubuntu-latest\n    steps:\n      - uses: actions/checkout@v4\n      - uses: actions/setup-node@v4\n        with:\n          node-version: 22\n      - run: npm install\n      - run: npm run test\n      - run: npx wrangler pages deploy ui --project-name "@.len() as int;
    let other =
        "import assert from 'node:assert/strict';\nimport test from 'node:test';\nimport worker from '../worker/src/index.ts';\nimport { HOME, RESOURCES } from '../worker/src/content.generated.ts';\n\ntest('home contract', () => {\n  assert.equal(HOME.schema, 'mahayana.miniapp.home.v1');\n  assert.equal(HOME.app.id, '"@.len() as int;
    assert(workflow_text(name).subrange(start, start + name.len()) =~= name);
    assert(occurs_at(workflow_text(name), name, start));
    assert(contract_text(name).subrange(other, other + name.len()) =~= name);
    assert(occurs_at(contract_text(name), name, other));
}

} // verus!
