//! What a repository on disk takes: the plugins to validate, the files to write, and the content to
//! read.

use crate::cli::remote_install;
use crate::json::{items_field, tree, trees, Json, Tree};
use crate::json_text::{json_parse, parse};
use crate::order::arranged;
use crate::path::PathStyle;
use crate::plugin_dev::{
    brings_local_runtimes, content_files, content_path, has_local_servers, markdown,
    marketplace_entries, marketplace_in, offered, plugin_path, plugin_place, plugin_report_tree,
    read_marketplace, text_tree, FileName, PluginFacts, ServersView, SourceKind,
};
use crate::text::text_result;
use vstd::prelude::*;
use vstd::string::*;

verus! {

/// Where the plugins of a marketplace are, one by one, or what is wrong with their entries.
pub open spec fn places(style: PathStyle, root: Seq<char>, entries: Seq<Tree>) -> Seq<
    Result<Seq<char>, Seq<char>>,
> {
    Seq::new(entries.len(), |i: int| plugin_place(style, root, entries[i]))
}

/// The characters of results of strings.
pub open spec fn place_views(results: Seq<Result<String, String>>) -> Seq<
    Result<Seq<char>, Seq<char>>,
> {
    Seq::new(results.len(), |i: int| text_result(results[i]))
}

fn plugin_places(style: PathStyle, root: &str, entries: &Vec<Json>) -> (out: Vec<
    Result<String, String>,
>)
    ensures
        place_views(out@) == places(style, root@, trees(entries@)),
{
    let mut out: Vec<Result<String, String>> = Vec::new();
    let mut i: usize = 0;
    while i < entries.len()
        invariant
            i <= entries@.len(),
            place_views(out@) =~= places(style, root@, trees(entries@)).take(i as int),
        decreases entries@.len() - i,
    {
        let ghost before = out@;
        let place = plugin_path(style, root, &entries[i]);
        proof {
            assert(trees(entries@)[i as int] == tree(entries@[i as int]));
        }
        out.push(place);
        proof {
            assert(place_views(out@) =~= place_views(before).push(text_result(place)));
        }
        i = i + 1;
    }
    out
}

/// What validating a directory takes.
pub ghost enum ValidationView {
    Plugin,
    Marketplace { marketplace: Tree, places: Seq<Result<Seq<char>, Seq<char>>> },
}

/// What validating a directory takes.
#[derive(Debug, PartialEq, Eq)]
pub enum Validation {
    /// The directory is a plugin.
    Plugin,
    /// The directory lists plugins. They are validated in their order, and the first that cannot
    /// be found or does not validate ends it.
    Marketplace { marketplace: Json, places: Vec<Result<String, String>> },
}

impl View for Validation {
    type V = ValidationView;

    open spec fn view(&self) -> ValidationView {
        match self {
            Validation::Plugin => ValidationView::Plugin,
            Validation::Marketplace { marketplace, places } => ValidationView::Marketplace {
                marketplace: marketplace@,
                places: place_views(places@),
            },
        }
    }
}

/// What validating a directory takes, or why it cannot be validated. A directory with a plugin
/// manifest is a plugin, and any other one must have a marketplace.
pub open spec fn validation(
    style: PathStyle,
    path: Seq<char>,
    is_plugin: bool,
    marketplace: Result<Tree, Seq<char>>,
) -> Result<ValidationView, Seq<char>> {
    if is_plugin {
        Ok(ValidationView::Plugin)
    } else {
        match marketplace {
            Ok(marketplace) => match items_field(marketplace, "plugins"@) {
                Some(entries) => Ok(
                    ValidationView::Marketplace {
                        marketplace,
                        places: places(style, path, entries),
                    },
                ),
                None => Err("marketplace plugins must be an array"@),
            },
            Err(message) => Err(message),
        }
    }
}

/// Decides what validating the directory at `path` takes. `source` is what reading its marketplace
/// gave.
pub fn plan_validation(
    style: PathStyle,
    path: &str,
    is_plugin: bool,
    source: Result<String, String>,
) -> (out: Result<Validation, String>)
    ensures
        validation(
            style,
            path@,
            is_plugin,
            marketplace_in(path@, text_result(source), text_tree(source)),
        ) == match out {
            Ok(plan) => Ok::<ValidationView, Seq<char>>(plan@),
            Err(message) => Err(message@),
        },
{
    if is_plugin {
        return Ok(Validation::Plugin);
    }
    let marketplace = match read_marketplace(path, source) {
        Ok(marketplace) => marketplace,
        Err(message) => {
            return Err(message);
        },
    };
    let places = match marketplace_entries(&marketplace) {
        Ok(entries) => plugin_places(style, path, entries),
        Err(message) => {
            return Err(message);
        },
    };
    Ok(Validation::Marketplace { marketplace, places })
}

/// The plugins of a checkout that are still to be validated once the checkout was: those that its
/// marketplace lists, where the checkout is itself a plugin.
pub open spec fn left_to_validate(
    style: PathStyle,
    path: Seq<char>,
    is_plugin: bool,
    marketplace: Tree,
) -> Seq<Result<Seq<char>, Seq<char>>> {
    match items_field(marketplace, "plugins"@) {
        Some(entries) if is_plugin => places(style, path, entries),
        _ => Seq::empty(),
    }
}

/// Decides which plugins of a checkout are still to be validated, from the text of its marketplace.
pub fn plan_checkout(style: PathStyle, path: &str, is_plugin: bool, source: &str) -> (out: Result<
    Vec<Result<String, String>>,
    String,
>)
    ensures
        match out {
            Ok(places) => json_parse(source@) is Ok && place_views(places@) == left_to_validate(
                style,
                path@,
                is_plugin,
                json_parse(source@)->Ok_0,
            ),
            Err(message) => json_parse(source@) == Err::<Tree, Seq<char>>(message@),
        },
{
    let marketplace = match parse(source) {
        Ok(marketplace) => marketplace,
        Err(message) => {
            return Err(message);
        },
    };
    if is_plugin {
        match marketplace.items_field("plugins") {
            Some(entries) => {
                return Ok(plugin_places(style, path, entries));
            },
            None => {},
        }
    }
    let none: Vec<Result<String, String>> = Vec::new();
    proof {
        assert(place_views(none@) =~= Seq::<Result<Seq<char>, Seq<char>>>::empty());
    }
    Ok(none)
}

/// The report on a checkout: where it is itself a plugin, the report on that plugin with those on
/// the plugins that its marketplace lists.
pub open spec fn whole_report(is_plugin: bool, report: Tree, listed: Seq<Tree>) -> Tree {
    match report {
        Tree::Object(fields) if is_plugin => Tree::Object(
            fields.insert("plugins"@, Tree::Array(listed)),
        ),
        _ => report,
    }
}

/// Puts the report on a checkout together from the one that validating it gave and from those on
/// the plugins that were left to validate.
pub fn checkout_report(is_plugin: bool, report: Json, listed: Vec<Json>) -> (out: Json)
    ensures
        out@ == whole_report(is_plugin, report@, trees(listed@)),
{
    match report {
        Json::Object(fields) => if is_plugin {
            Json::Object(fields.with("plugins", Json::Array(listed)))
        } else {
            Json::Object(fields)
        },
        other => other,
    }
}

/// The report on a valid plugin tells of local servers exactly where the plugin has some.
pub proof fn lemma_local_servers_are_reported(facts: PluginFacts, servers: ServersView)
    ensures
        has_local_servers(plugin_report_tree(facts, servers)) == (servers.local.len() > 0),
{
    reveal_strlit("localServers");
    reveal_strlit("localExecutionRequiresSeparateApproval");
    reveal_strlit("checks");
    assert("localServers"@.len() == 12 && "checks"@.len() == 6
        && "localExecutionRequiresSeparateApproval"@.len() == 38);
    let fields = plugin_report_tree(facts, servers)->Object_0;
    assert(fields["localServers"@] == Tree::Array(
        Seq::new(servers.local.len(), |i: int| Tree::Text(servers.local[i])),
    ));
}

/// The report on a checkout that is itself a plugin tells of a local runtime exactly where that
/// plugin or one of the listed ones has a local server.
pub proof fn lemma_no_local_runtime_is_left_out(report: Tree, listed: Seq<Tree>)
    requires
        report is Object,
    ensures
        brings_local_runtimes(whole_report(true, report, listed)) == (has_local_servers(report)
            || exists|i: int| 0 <= i < listed.len() && #[trigger] has_local_servers(listed[i])),
{
    reveal_strlit("localServers");
    reveal_strlit("plugins");
    assert("localServers"@.len() == 12 && "plugins"@.len() == 7);
    let whole = whole_report(true, report, listed);
    assert(items_field(whole, "plugins"@) == Some(listed));
    assert(items_field(whole, "localServers"@) == items_field(report, "localServers"@));
    let found = items_field(whole, "plugins"@)->0;
    if exists|i: int| 0 <= i < listed.len() && #[trigger] has_local_servers(listed[i]) {
        let i = choose|i: int| 0 <= i < listed.len() && #[trigger] has_local_servers(listed[i]);
        assert(has_local_servers(found[i]));
    }
    if exists|i: int| 0 <= i < found.len() && #[trigger] has_local_servers(found[i]) {
        let i = choose|i: int| 0 <= i < found.len() && #[trigger] has_local_servers(found[i]);
        assert(has_local_servers(listed[i]));
    }
}

/// A repository that brings a local runtime, be it that of a plugin at its root or of a listed
/// one, is not installed unless local runtimes are allowed.
pub proof fn lemma_local_runtime_needs_permission(
    marketplace: Tree,
    report: Tree,
    source: Seq<char>,
    json: bool,
)
    requires
        brings_local_runtimes(report),
        offered(marketplace, report) is Ok,
    ensures
        remote_install(offered(marketplace, report)->Ok_0, source, json, false) is Err,
        remote_install(offered(marketplace, report)->Ok_0, source, json, true) is Ok,
{
}

/// Why a new plugin is refused: its directory is already there.
pub open spec fn new_plugin_fault(path: Seq<char>, present: bool) -> Option<Seq<char>> {
    if present {
        Some("refusing to overwrite existing plugin directory "@ + path)
    } else {
        None
    }
}

/// Why a new file is not written: something is already there.
pub open spec fn new_file_fault(path: Seq<char>, present: bool) -> Option<Seq<char>> {
    if present {
        Some("refusing to overwrite "@ + path)
    } else {
        None
    }
}

/// Refuses a new plugin whose directory is already there.
pub fn check_new_plugin(path: &str, present: bool) -> (out: Result<(), String>)
    ensures
        match out {
            Ok(_) => new_plugin_fault(path@, present) is None,
            Err(message) => new_plugin_fault(path@, present) == Some(message@),
        },
{
    if present {
        Err("refusing to overwrite existing plugin directory ".to_owned().concat(path))
    } else {
        Ok(())
    }
}

/// Refuses to write a new file where something is already there.
pub fn check_new_file(path: &str, present: bool) -> (out: Result<(), String>)
    ensures
        match out {
            Ok(_) => new_file_fault(path@, present) is None,
            Err(message) => new_file_fault(path@, present) == Some(message@),
        },
{
    if present {
        Err("refusing to overwrite ".to_owned().concat(path))
    } else {
        Ok(())
    }
}

/// The names of the files in the content directories of a plugin.
#[derive(Debug, PartialEq, Eq)]
pub struct ContentListing {
    pub has_welcome: bool,
    pub tips: Vec<FileName>,
    pub announcements: Vec<FileName>,
    pub articles: Vec<FileName>,
}

/// A content file that is compiled.
pub ghost struct ContentView {
    pub kind: SourceKind,
    pub path: Seq<char>,
}

/// A content file that is compiled.
#[derive(Debug, PartialEq, Eq)]
pub struct ContentFile {
    pub kind: SourceKind,
    pub path: String,
}

impl View for ContentFile {
    type V = ContentView;

    open spec fn view(&self) -> ContentView {
        ContentView { kind: self.kind, path: self.path@ }
    }
}

/// The content files of a list.
pub open spec fn content_views(files: Seq<ContentFile>) -> Seq<ContentView> {
    Seq::new(files.len(), |i: int| files[i]@)
}

/// The Markdown files of a content directory, in the order of their names.
pub open spec fn folder_content(
    kind: SourceKind,
    folder: Seq<char>,
    names: Seq<FileName>,
) -> Seq<ContentView> {
    let files = markdown(arranged(names));
    Seq::new(
        files.len(),
        |i: int| ContentView { kind, path: "content/"@ + folder + "/"@ + files[i] },
    )
}

/// The content of a plugin in the order in which it is compiled: the welcome text, and then the
/// tips, announcements and articles.
pub open spec fn content_of(listing: ContentListing) -> Seq<ContentView> {
    let welcome = if listing.has_welcome {
        seq![ContentView { kind: SourceKind::Welcome, path: "content/welcome.md"@ }]
    } else {
        Seq::empty()
    };
    welcome + folder_content(SourceKind::Tip, "tips"@, listing.tips@) + folder_content(
        SourceKind::Announcement,
        "announcements"@,
        listing.announcements@,
    ) + folder_content(SourceKind::Article, "articles"@, listing.articles@)
}

fn folder_files(kind: SourceKind, folder: &str, names: Vec<FileName>) -> (out: Vec<ContentFile>)
    ensures
        content_views(out@) == folder_content(kind, folder@, names@),
{
    let ghost wanted = folder_content(kind, folder@, names@);
    let files = content_files(names);
    let mut out: Vec<ContentFile> = Vec::new();
    let mut i: usize = 0;
    while i < files.len()
        invariant
            i <= files@.len(),
            wanted.len() == files@.len(),
            forall|j: int|
                0 <= j < files@.len() ==> #[trigger] wanted[j] == (ContentView {
                    kind,
                    path: "content/"@ + folder@ + "/"@ + files@[j]@,
                }),
            content_views(out@) =~= wanted.take(i as int),
        decreases files@.len() - i,
    {
        let ghost before = out@;
        let file = ContentFile { kind, path: content_path(folder, files[i].as_str()) };
        out.push(file);
        proof {
            assert(content_views(out@) =~= content_views(before).push(wanted[i as int]));
        }
        i = i + 1;
    }
    out
}

/// Decides which content files of a plugin are compiled, and in which order.
pub fn plan_content(listing: ContentListing) -> (out: Vec<ContentFile>)
    ensures
        content_views(out@) == content_of(listing),
{
    let ghost wanted = content_of(listing);
    let mut out: Vec<ContentFile> = Vec::new();
    if listing.has_welcome {
        out.push(
            ContentFile { kind: SourceKind::Welcome, path: "content/welcome.md".to_owned() },
        );
    }
    let ghost welcome = content_views(out@);
    let mut tips = folder_files(SourceKind::Tip, "tips", listing.tips);
    let mut announcements = folder_files(
        SourceKind::Announcement,
        "announcements",
        listing.announcements,
    );
    let mut articles = folder_files(SourceKind::Article, "articles", listing.articles);
    let ghost parts = (content_views(tips@), content_views(announcements@), content_views(articles@));
    out.append(&mut tips);
    out.append(&mut announcements);
    out.append(&mut articles);
    proof {
        assert(content_views(out@) =~= welcome + parts.0 + parts.1 + parts.2);
        assert(content_views(out@) =~= wanted);
    }
    out
}

} // verus!
