//! The files of a new plugin.

use crate::json::{appended, trees, Json, Object, Tree};
use crate::json_text::{json_pretty, pretty};
use crate::plugin_dev::required_paths;
use crate::text::{replace, replaced};
use crate::text_map::TextMap;
use vstd::prelude::*;
use vstd::string::*;

verus! {

/// The worker of a plugin, with a mark where its name belongs.
pub const WORKER_SOURCE: &'static str = r#"import { HOME, RESOURCES } from './content.generated.ts';

const reply = (id: unknown, result: unknown) => Response.json({ jsonrpc: '2.0', id, result });
const error = (id: unknown, code: number, message: string) => Response.json({
  jsonrpc: '2.0', id, error: { code, message },
});

export default {
  async fetch(request: Request): Promise<Response> {
    const url = new URL(request.url);
    if (url.pathname !== '/mcp') return new Response('Not found', { status: 404 });
    if (request.method === 'DELETE') return new Response(null, { status: 204 });
    if (request.method !== 'POST') return new Response('Method not allowed', { status: 405 });
    const rpc = await request.json() as any;
    if (rpc.method === 'notifications/initialized') return new Response(null, { status: 202 });
    if (rpc.method === 'initialize') return reply(rpc.id, {
      protocolVersion: '2025-06-18', capabilities: { tools: {}, resources: {} },
      serverInfo: { name: '__PLUGIN_NAME__', version: '0.1.0' },
    });
    if (rpc.method === 'tools/list') return reply(rpc.id, { tools: [
      { name: 'home', description: '加载小程序首页', annotations: { readOnlyHint: true }, inputSchema: {
        type: 'object', additionalProperties: false, properties: {
          surface: { type: 'string' }, locale: { type: 'string' }, cursor: { type: 'string' },
          limit: { type: 'integer', minimum: 1, maximum: 10 },
        },
      } },
      { name: 'chat', description: '处理小程序对话', inputSchema: {
        type: 'object', additionalProperties: false, required: ['message'], properties: {
          message: { type: 'string' }, surface: { type: 'string' }, locale: { type: 'string' },
          actionId: { type: ['string', 'null'] },
        },
      } },
    ] });
    if (rpc.method === 'tools/call' && rpc.params?.name === 'home') return reply(rpc.id, {
      content: [{ type: 'text', text: HOME.welcome?.markdown ?? '' }], structuredContent: HOME,
    });
    if (rpc.method === 'tools/call' && rpc.params?.name === 'chat') return reply(rpc.id, {
      content: [], structuredContent: { handled: false },
    });
    if (rpc.method === 'resources/list') return reply(rpc.id, { resources: Object.keys(RESOURCES).map(uri => ({
      uri, name: uri.split('/').at(-1), mimeType: 'text/markdown',
    })) });
    if (rpc.method === 'resources/read') {
      const text = RESOURCES[String(rpc.params?.uri ?? '')];
      if (text === undefined) return error(rpc.id, -32002, 'Resource not found');
      return reply(rpc.id, { contents: [{ uri: rpc.params.uri, mimeType: 'text/markdown', text }] });
    }
    return error(rpc.id ?? null, -32601, 'Method not found');
  },
};
"#;

/// The mark for the plugin's name.
pub const NAME_MARK: &'static str = "__PLUGIN_NAME__";

/// The script that makes the worker's content out of the content files.
pub const CONTENT_COMPILER_SCRIPT: &'static str = r#"import crypto from 'node:crypto';
import fs from 'node:fs/promises';
import path from 'node:path';

const plugin = JSON.parse(await fs.readFile('.codex-plugin/plugin.json', 'utf8'));
const kinds = [['tips', 'tip'], ['announcements', 'announcement'], ['articles', 'article']];
const read = async file => {
  const source = (await fs.readFile(file, 'utf8')).replaceAll('\r\n', '\n');
  const match = source.match(/^---\n([\s\S]*?)\n---\n([\s\S]*)$/);
  if (!match) throw new Error(`${file} requires YAML front matter`);
  const meta = Object.fromEntries(match[1].split('\n').filter(Boolean).map(line => {
    const at = line.indexOf(':');
    const key = line.slice(0, at).trim();
    let value = line.slice(at + 1).trim().replace(/^['"]|['"]$/g, '');
    if (value.startsWith('[')) value = value.slice(1, -1).split(',').map(item => item.trim()).filter(Boolean);
    return [key, value];
  }));
  if (!meta.id || !meta.revision) throw new Error(`${file} requires id and revision`);
  return { meta, markdown: match[2].trim() };
};
const welcome = await read('content/welcome.md');
const tips = []; const items = []; const resources = {};
for (const [folder, kind] of kinds) {
  const directory = `content/${folder}`;
  for (const name of (await fs.readdir(directory).catch(() => [])).filter(name => name.endsWith('.md')).sort()) {
    const content = await read(path.join(directory, name));
    if (kind === 'tip') tips.push({ id: content.meta.id, revision: content.meta.revision, markdown: content.markdown });
    else {
      if (!content.meta.title || !content.meta.publishedAt) throw new Error(`${name} requires title and publishedAt`);
      const uri = `mahayana://${plugin.name}/content/${folder}/${content.meta.id}`;
      resources[uri] = content.markdown;
      items.push({ id: content.meta.id, revision: content.meta.revision, kind, title: content.meta.title,
        publishedAt: content.meta.publishedAt, summary: content.meta.summary || undefined,
        expiresAt: content.meta.expiresAt || undefined, coverImage: content.meta.coverImage || undefined,
        tags: content.meta.tags || [], quickReplies: [], resourceUri: uri });
    }
  }
}
items.sort((a, b) => b.publishedAt.localeCompare(a.publishedAt) || a.id.localeCompare(b.id));
const source = JSON.stringify({ welcome, tips, items, resources });
const home = { schema: 'mahayana.miniapp.home.v1', revision: crypto.createHash('sha256').update(source).digest('hex'),
  app: { id: plugin.name, title: plugin.interface.displayName, version: plugin.version, source: plugin.repository },
  welcome: { id: welcome.meta.id, markdown: welcome.markdown }, tips, quickReplies: [],
  feed: { items: items.slice(0, 10), nextCursor: items.length > 10 ? '10' : null } };
if (Buffer.byteLength(JSON.stringify(home)) > 32768) throw new Error('home payload exceeds 32 KiB');
await fs.writeFile('worker/src/content.generated.ts', `export const HOME = ${JSON.stringify(home, null, 2)} as const;\nexport const RESOURCES: Record<string,string> = ${JSON.stringify(resources, null, 2)};\n`);
"#;

/// A value as the text of a file.
pub open spec fn pretty_file(value: Tree) -> Seq<char> {
    json_pretty(value) + "\n"@
}

fn pretty_json(value: &Json) -> (out: String)
    ensures
        out@ == pretty_file(value@),
{
    pretty(value).concat("\n")
}

/// The manifest of a plugin.
pub open spec fn manifest_tree(name: Seq<char>, title: Seq<char>) -> Tree {
    Tree::Object(
        map![
            "name"@ => Tree::Text(name),
            "version"@ => Tree::Text("0.1.0"@),
            "description"@ => Tree::Text(title + " 对话式 MCP 小程序"@),
            "author"@ => Tree::Object(map!["name"@ => Tree::Text(title + " 开发者"@)]),
            "repository"@ => Tree::Text("https://github.com/owner/repository"@),
            "license"@ => Tree::Text("Apache-2.0"@),
            "mcpServers"@ => Tree::Text("./.mcp.json"@),
            "interface"@ => Tree::Object(
                map![
                    "displayName"@ => Tree::Text(title),
                    "shortDescription"@ => Tree::Text("对话式 MCP 小程序"@),
                    "longDescription"@ => Tree::Text(
                        "由仓库内容、MCP Tools 和 Cloudflare UI 组成的小程序。"@,
                    ),
                    "developerName"@ => Tree::Text(title + " 开发者"@),
                    "category"@ => Tree::Text("Productivity"@),
                    "capabilities"@ => Tree::Array(seq![Tree::Text("Interactive"@)]),
                ],
            ),
        ],
    )
}

fn one_text(value: &str) -> (out: Json)
    ensures
        out@ == Tree::Array(seq![Tree::Text(value@)]),
{
    let items = appended(Vec::new(), Json::text(value));
    proof {
        assert(trees(items@) =~= seq![Tree::Text(value@)]);
    }
    Json::Array(items)
}

fn plugin_manifest(name: &str, title: &str) -> (out: Json)
    ensures
        out@ == manifest_tree(name@, title@),
{
    let description = title.to_owned().concat(" 对话式 MCP 小程序");
    let developer = title.to_owned().concat(" 开发者");
    let interface = Object::new().with_text("displayName", title).with_text(
        "shortDescription",
        "对话式 MCP 小程序",
    ).with_text(
        "longDescription",
        "由仓库内容、MCP Tools 和 Cloudflare UI 组成的小程序。",
    ).with_text("developerName", developer.as_str()).with_text("category", "Productivity").with(
        "capabilities",
        one_text("Interactive"),
    );
    Json::Object(
        Object::new().with_text("name", name).with_text("version", "0.1.0").with_text(
            "description",
            description.as_str(),
        ).with(
            "author",
            Json::Object(Object::new().with_text("name", developer.as_str())),
        ).with_text("repository", "https://github.com/owner/repository").with_text(
            "license",
            "Apache-2.0",
        ).with_text("mcpServers", "./.mcp.json").with("interface", Json::Object(interface)),
    )
}

/// The servers of a plugin.
pub open spec fn mcp_tree(name: Seq<char>) -> Tree {
    Tree::Object(
        map![
            "mcpServers"@ => Tree::Object(
                map![
                    name => Tree::Object(
                        map![
                            "type"@ => Tree::Text("http"@),
                            "url"@ => Tree::Text(
                                "https://"@ + name + "-mcp.workers.dev/mcp"@,
                            ),
                        ],
                    ),
                ],
            ),
        ],
    )
}

fn mcp_manifest(name: &str) -> (out: Json)
    ensures
        out@ == mcp_tree(name@),
{
    let url = "https://".to_owned().concat(name).concat("-mcp.workers.dev/mcp");
    let server = Object::new().with_text("type", "http").with_text("url", url.as_str());
    let servers = Object::new().with(name, Json::Object(server));
    Json::Object(Object::new().with("mcpServers", Json::Object(servers)))
}

/// The extension of a plugin.
pub open spec fn extension_tree() -> Tree {
    Tree::Object(
        map![
            "schemaVersion"@ => Tree::Int(1),
            "miniapp"@ => Tree::Object(
                map![
                    "entry"@ => Tree::Text("./ui/index.html"@),
                    "bridgeVersion"@ => Tree::Text("1.0"@),
                    "permissions"@ => Tree::Array(
                        seq![Tree::Text("mcp.call"@), Tree::Text("storage.local"@)],
                    ),
                ],
            ),
            "commands"@ => Tree::Array(Seq::empty()),
            "gates"@ => Tree::Array(Seq::empty()),
        ],
    )
}

fn no_items() -> (out: Json)
    ensures
        out@ == Tree::Array(Seq::empty()),
{
    let none: Vec<Json> = Vec::new();
    proof {
        assert(trees(none@) =~= Seq::<Tree>::empty());
    }
    Json::Array(none)
}

fn mahayana_manifest() -> (out: Json)
    ensures
        out@ == extension_tree(),
{
    let permissions = appended(
        appended(Vec::new(), Json::text("mcp.call")),
        Json::text("storage.local"),
    );
    proof {
        assert(trees(permissions@) =~= seq![
            Tree::Text("mcp.call"@),
            Tree::Text("storage.local"@),
        ]);
    }
    let miniapp = Object::new().with_text("entry", "./ui/index.html").with_text(
        "bridgeVersion",
        "1.0",
    ).with("permissions", Json::Array(permissions));
    Json::Object(
        Object::new().with("schemaVersion", Json::Unsigned(1)).with(
            "miniapp",
            Json::Object(miniapp),
        ).with("commands", no_items()).with("gates", no_items()),
    )
}

/// The package description of a plugin.
pub open spec fn package_tree(name: Seq<char>) -> Tree {
    Tree::Object(
        map![
            "name"@ => Tree::Text("@mahayana/"@ + name),
            "version"@ => Tree::Text("0.1.0"@),
            "private"@ => Tree::Bool(true),
            "type"@ => Tree::Text("module"@),
            "scripts"@ => Tree::Object(
                map![
                    "build:content"@ => Tree::Text("node scripts/compile-content.mjs"@),
                    "test"@ => Tree::Text(
                        "npm run build:content && node --experimental-strip-types --test test/*.test.mjs"@,
                    ),
                    "deploy"@ => Tree::Text("npm run build:content && wrangler deploy"@),
                ],
            ),
            "engines"@ => Tree::Object(map!["node"@ => Tree::Text(">=22.6"@)]),
            "devDependencies"@ => Tree::Object(map!["wrangler"@ => Tree::Text("^4.0.0"@)]),
        ],
    )
}

fn package_manifest(name: &str) -> (out: Json)
    ensures
        out@ == package_tree(name@),
{
    let full = "@mahayana/".to_owned().concat(name);
    let scripts = Object::new().with_text(
        "build:content",
        "node scripts/compile-content.mjs",
    ).with_text(
        "test",
        "npm run build:content && node --experimental-strip-types --test test/*.test.mjs",
    ).with_text("deploy", "npm run build:content && wrangler deploy");
    Json::Object(
        Object::new().with_text("name", full.as_str()).with_text("version", "0.1.0").with(
            "private",
            Json::Bool(true),
        ).with_text("type", "module").with("scripts", Json::Object(scripts)).with(
            "engines",
            Json::Object(Object::new().with_text("node", ">=22.6")),
        ).with(
            "devDependencies",
            Json::Object(Object::new().with_text("wrangler", "^4.0.0")),
        ),
    )
}

/// The home page data of a plugin whose content was not compiled yet.
pub open spec fn home_tree(name: Seq<char>, title: Seq<char>) -> Tree {
    Tree::Object(
        map![
            "schema"@ => Tree::Text("mahayana.miniapp.home.v1"@),
            "revision"@ => Tree::Text("run-npm-build-content"@),
            "app"@ => Tree::Object(
                map![
                    "id"@ => Tree::Text(name),
                    "title"@ => Tree::Text(title),
                    "version"@ => Tree::Text("0.1.0"@),
                ],
            ),
            "welcome"@ => Tree::Object(
                map![
                    "id"@ => Tree::Text("welcome"@),
                    "markdown"@ => Tree::Text("欢迎来到 **"@ + title + "**。"@),
                ],
            ),
            "tips"@ => Tree::Array(Seq::empty()),
            "quickReplies"@ => Tree::Array(Seq::empty()),
            "feed"@ => Tree::Object(
                map!["items"@ => Tree::Array(Seq::empty()), "nextCursor"@ => Tree::Null],
            ),
        ],
    )
}

fn home_value(name: &str, title: &str) -> (out: Json)
    ensures
        out@ == home_tree(name@, title@),
{
    let markdown = "欢迎来到 **".to_owned().concat(title).concat("**。");
    let app = Object::new().with_text("id", name).with_text("title", title).with_text(
        "version",
        "0.1.0",
    );
    let welcome = Object::new().with_text("id", "welcome").with_text(
        "markdown",
        markdown.as_str(),
    );
    let feed = Object::new().with("items", no_items()).with("nextCursor", Json::Null);
    Json::Object(
        Object::new().with_text("schema", "mahayana.miniapp.home.v1").with_text(
            "revision",
            "run-npm-build-content",
        ).with("app", Json::Object(app)).with("welcome", Json::Object(welcome)).with(
            "tips",
            no_items(),
        ).with("quickReplies", no_items()).with("feed", Json::Object(feed)),
    )
}

/// The worker's content before it was compiled.
pub open spec fn generated_text(name: Seq<char>, title: Seq<char>) -> Seq<char> {
    "export const HOME = "@ + json_pretty(home_tree(name, title))
        + " as const;\nexport const RESOURCES: Record<string,string> = {};\n"@
}

fn initial_generated_content(name: &str, title: &str) -> (out: String)
    ensures
        out@ == generated_text(name@, title@),
{
    "export const HOME = ".to_owned().concat(pretty(&home_value(name, title)).as_str()).concat(
        " as const;\nexport const RESOURCES: Record<string,string> = {};\n",
    )
}

/// The worker of a plugin.
pub open spec fn worker_text(name: Seq<char>) -> Seq<char> {
    replaced(WORKER_SOURCE@, NAME_MARK@, name)
}

fn worker_source(name: &str) -> (out: String)
    ensures
        out@ == worker_text(name@),
{
    proof {
        reveal_strlit("__PLUGIN_NAME__");
        assert(NAME_MARK@.len() > 0);
    }
    replace(WORKER_SOURCE, NAME_MARK, name)
}

/// The welcome text of a plugin.
pub open spec fn welcome_text(title: Seq<char>) -> Seq<char> {
    "---\nid: welcome\nrevision: '1'\n---\n欢迎来到 **"@
        + title
        + "**。\n\n请在这里说明小程序用途、使用方法和预期效果。\n"@
}

/// The home page of a plugin.
pub open spec fn ui_text(title: Seq<char>) -> Seq<char> {
    "<!doctype html><html lang=\"zh-CN\"><head><meta charset=\"utf-8\"><meta name=\"viewport\" content=\"width=device-width,initial-scale=1\"><meta http-equiv=\"Content-Security-Policy\" content=\"default-src 'none'; style-src 'unsafe-inline'\"><title>"@
        + title
        + "</title><style>body{font:16px system-ui;margin:0;padding:2rem;max-width:48rem}article{padding:1.25rem;border:1px solid #ddd;border-radius:1rem}</style></head><body><article><h1>"@
        + title
        + "</h1><p>Pages UI 已就绪；对话、欢迎内容和文章由宿主通过 MCP 加载。</p></article></body></html>\n"@
}

/// The deployment settings of a plugin.
pub open spec fn wrangler_text(name: Seq<char>) -> Seq<char> {
    "name = \""@
        + name
        + "-mcp\"\nmain = \"worker/src/index.ts\"\ncompatibility_date = \"2026-07-19\"\n"@
}

/// The contract test of a plugin.
pub open spec fn contract_text(name: Seq<char>) -> Seq<char> {
    "import assert from 'node:assert/strict';\nimport test from 'node:test';\nimport worker from '../worker/src/index.ts';\nimport { HOME, RESOURCES } from '../worker/src/content.generated.ts';\n\ntest('home contract', () => {\n  assert.equal(HOME.schema, 'mahayana.miniapp.home.v1');\n  assert.equal(HOME.app.id, '"@
        + name
        + "');\n  assert.ok(Buffer.byteLength(JSON.stringify(HOME)) <= 32768);\n  assert.ok(HOME.feed.items.length <= 10);\n});\ntest('article bodies stay lazy', () => assert.ok(Object.keys(RESOURCES).length >= 1));\ntest('JSON-RPC errors use the top-level error member', async () => {\n  const response = await worker.fetch(new Request('https://example.test/mcp', {\n    method: 'POST', body: JSON.stringify({ jsonrpc: '2.0', id: 7, method: 'unknown' }),\n  }));\n  assert.deepEqual((await response.json()).error, { code: -32601, message: 'Method not found' });\n});\n"@
}

/// The deployment workflow of a plugin.
pub open spec fn workflow_text(name: Seq<char>) -> Seq<char> {
    "name: Deploy Cloudflare\non:\n  push:\n    branches: [main]\n  workflow_dispatch:\njobs:\n  deploy:\n    runs-on: ubuntu-latest\n    steps:\n      - uses: actions/checkout@v4\n      - uses: actions/setup-node@v4\n        with:\n          node-version: 22\n      - run: npm install\n      - run: npm run test\n      - run: npx wrangler pages deploy ui --project-name "@
        + name
        + "\n        env:\n          CLOUDFLARE_API_TOKEN: ${{ secrets.CLOUDFLARE_API_TOKEN }}\n          CLOUDFLARE_ACCOUNT_ID: ${{ secrets.CLOUDFLARE_ACCOUNT_ID }}\n      - run: npx wrangler deploy\n        env:\n          CLOUDFLARE_API_TOKEN: ${{ secrets.CLOUDFLARE_API_TOKEN }}\n          CLOUDFLARE_ACCOUNT_ID: ${{ secrets.CLOUDFLARE_ACCOUNT_ID }}\n"@
}

fn cloudflare_workflow(name: &str) -> (out: String)
    ensures
        out@ == workflow_text(name@),
{
    "name: Deploy Cloudflare\non:\n  push:\n    branches: [main]\n  workflow_dispatch:\njobs:\n  deploy:\n    runs-on: ubuntu-latest\n    steps:\n      - uses: actions/checkout@v4\n      - uses: actions/setup-node@v4\n        with:\n          node-version: 22\n      - run: npm install\n      - run: npm run test\n      - run: npx wrangler pages deploy ui --project-name ".to_owned().concat(name).concat("\n        env:\n          CLOUDFLARE_API_TOKEN: ${{ secrets.CLOUDFLARE_API_TOKEN }}\n          CLOUDFLARE_ACCOUNT_ID: ${{ secrets.CLOUDFLARE_ACCOUNT_ID }}\n      - run: npx wrangler deploy\n        env:\n          CLOUDFLARE_API_TOKEN: ${{ secrets.CLOUDFLARE_API_TOKEN }}\n          CLOUDFLARE_ACCOUNT_ID: ${{ secrets.CLOUDFLARE_ACCOUNT_ID }}\n")
}

/// The first tip of a plugin.
pub open spec fn tip_text() -> Seq<char> {
    "---\nid: getting-started\nrevision: '1'\n---\n回复 `/` 可查看当前 MCP Tools。\n"@
}

/// The first announcement of a plugin.
pub open spec fn announcement_text() -> Seq<char> {
    "---\nid: launch\nrevision: '1'\ntitle: 小程序上线\npublishedAt: 2026-07-19\nsummary: 欢迎使用这个对话式 MCP 小程序。\ntags: [公告]\n---\n# 小程序上线\n\n这里是首条公告。\n"@
}

/// The first article of a plugin.
pub open spec fn article_text() -> Seq<char> {
    "---\nid: guide\nrevision: '1'\ntitle: 使用指南\npublishedAt: 2026-07-19\nsummary: 了解小程序的核心功能。\ntags: [指南]\n---\n# 使用指南\n\n在这里编写公众号式文章正文。\n"@
}

/// The content files of a plugin, added to others.
pub open spec fn with_content_files(
    files: Map<Seq<char>, Seq<char>>,
    title: Seq<char>,
) -> Map<Seq<char>, Seq<char>> {
    files.insert("content/welcome.md"@, welcome_text(title)).insert(
        "content/tips/getting-started.md"@,
        tip_text(),
    ).insert("content/announcements/launch.md"@, announcement_text()).insert(
        "content/articles/guide.md"@,
        article_text(),
    )
}

/// The files that run a plugin, added to others.
pub open spec fn with_runtime_files(
    files: Map<Seq<char>, Seq<char>>,
    name: Seq<char>,
    title: Seq<char>,
) -> Map<Seq<char>, Seq<char>> {
    files.insert("ui/index.html"@, ui_text(title)).insert(
        "worker/src/index.ts"@,
        worker_text(name),
    ).insert("worker/src/content.generated.ts"@, generated_text(name, title)).insert(
        "scripts/compile-content.mjs"@,
        CONTENT_COMPILER_SCRIPT@,
    ).insert("package.json"@, pretty_file(package_tree(name))).insert(
        "wrangler.toml"@,
        wrangler_text(name),
    ).insert("test/contract.test.mjs"@, contract_text(name)).insert(
        ".github/workflows/deploy-cloudflare.yml"@,
        workflow_text(name),
    )
}

/// The files of a new plugin by path.
pub open spec fn template(name: Seq<char>, title: Seq<char>) -> Map<Seq<char>, Seq<char>> {
    with_runtime_files(
        with_content_files(
            map![
                ".codex-plugin/plugin.json"@ => pretty_file(manifest_tree(name, title)),
                ".mcp.json"@ => pretty_file(mcp_tree(name)),
                ".mahayana/plugin.json"@ => pretty_file(extension_tree()),
            ],
            title,
        ),
        name,
        title,
    )
}

fn put(files: &mut TextMap<String>, path: &str, content: String)
    ensures
        final(files).deep() == old(files).deep().insert(path@, content@),
{
    let ghost before = files.deep();
    files.insert(path.to_owned(), content);
    proof {
        assert(files.deep() =~= before.insert(path@, content@));
    }
}

fn add_content_files(files: &mut TextMap<String>, title: &str)
    ensures
        final(files).deep() == with_content_files(old(files).deep(), title@),
{
    put(
        files,
        "content/welcome.md",
        "---\nid: welcome\nrevision: '1'\n---\n欢迎来到 **".to_owned().concat(title).concat("**。\n\n请在这里说明小程序用途、使用方法和预期效果。\n"),
    );
    put(
        files,
        "content/tips/getting-started.md",
        "---\nid: getting-started\nrevision: '1'\n---\n回复 `/` 可查看当前 MCP Tools。\n".to_owned(),
    );
    put(
        files,
        "content/announcements/launch.md",
        "---\nid: launch\nrevision: '1'\ntitle: 小程序上线\npublishedAt: 2026-07-19\nsummary: 欢迎使用这个对话式 MCP 小程序。\ntags: [公告]\n---\n# 小程序上线\n\n这里是首条公告。\n".to_owned(),
    );
    put(
        files,
        "content/articles/guide.md",
        "---\nid: guide\nrevision: '1'\ntitle: 使用指南\npublishedAt: 2026-07-19\nsummary: 了解小程序的核心功能。\ntags: [指南]\n---\n# 使用指南\n\n在这里编写公众号式文章正文。\n".to_owned(),
    );
}

fn add_runtime_files(files: &mut TextMap<String>, name: &str, title: &str)
    ensures
        final(files).deep() == with_runtime_files(old(files).deep(), name@, title@),
{
    put(
        files,
        "ui/index.html",
        "<!doctype html><html lang=\"zh-CN\"><head><meta charset=\"utf-8\"><meta name=\"viewport\" content=\"width=device-width,initial-scale=1\"><meta http-equiv=\"Content-Security-Policy\" content=\"default-src 'none'; style-src 'unsafe-inline'\"><title>".to_owned().concat(title).concat("</title><style>body{font:16px system-ui;margin:0;padding:2rem;max-width:48rem}article{padding:1.25rem;border:1px solid #ddd;border-radius:1rem}</style></head><body><article><h1>").concat(title).concat("</h1><p>Pages UI 已就绪；对话、欢迎内容和文章由宿主通过 MCP 加载。</p></article></body></html>\n"),
    );
    put(files, "worker/src/index.ts", worker_source(name));
    put(
        files,
        "worker/src/content.generated.ts",
        initial_generated_content(name, title),
    );
    put(files, "scripts/compile-content.mjs", CONTENT_COMPILER_SCRIPT.to_owned());
    put(files, "package.json", pretty_json(&package_manifest(name)));
    put(
        files,
        "wrangler.toml",
        "name = \"".to_owned().concat(name).concat("-mcp\"\nmain = \"worker/src/index.ts\"\ncompatibility_date = \"2026-07-19\"\n"),
    );
    put(
        files,
        "test/contract.test.mjs",
        "import assert from 'node:assert/strict';\nimport test from 'node:test';\nimport worker from '../worker/src/index.ts';\nimport { HOME, RESOURCES } from '../worker/src/content.generated.ts';\n\ntest('home contract', () => {\n  assert.equal(HOME.schema, 'mahayana.miniapp.home.v1');\n  assert.equal(HOME.app.id, '".to_owned().concat(name).concat("');\n  assert.ok(Buffer.byteLength(JSON.stringify(HOME)) <= 32768);\n  assert.ok(HOME.feed.items.length <= 10);\n});\ntest('article bodies stay lazy', () => assert.ok(Object.keys(RESOURCES).length >= 1));\ntest('JSON-RPC errors use the top-level error member', async () => {\n  const response = await worker.fetch(new Request('https://example.test/mcp', {\n    method: 'POST', body: JSON.stringify({ jsonrpc: '2.0', id: 7, method: 'unknown' }),\n  }));\n  assert.deepEqual((await response.json()).error, { code: -32601, message: 'Method not found' });\n});\n"),
    );
    put(files, ".github/workflows/deploy-cloudflare.yml", cloudflare_workflow(name));
}

/// The files of a new plugin by path.
pub fn template_files(name: &str, title: &str) -> (out: TextMap<String>)
    ensures
        out.deep() == template(name@, title@),
{
    let mut files: TextMap<String> = TextMap::new();
    proof {
        assert(files.deep() =~= Map::<Seq<char>, Seq<char>>::empty());
    }
    put(&mut files, ".codex-plugin/plugin.json", pretty_json(&plugin_manifest(name, title)));
    put(&mut files, ".mcp.json", pretty_json(&mcp_manifest(name)));
    put(&mut files, ".mahayana/plugin.json", pretty_json(&mahayana_manifest()));
    add_content_files(&mut files, title);
    add_runtime_files(&mut files, name, title);
    files
}

/// A new plugin has every file that a valid plugin must have.
pub proof fn lemma_template_is_complete(name: Seq<char>, title: Seq<char>)
    ensures
        forall|i: int|
            0 <= i < required_paths().len() ==> template(name, title).contains_key(
                #[trigger] required_paths()[i],
            ),
        template(name, title).contains_key(".codex-plugin/plugin.json"@),
        template(name, title).contains_key(".mcp.json"@),
{
    let files = template(name, title);
    assert(files.contains_key("wrangler.toml"@));
    assert(files.contains_key("worker/src/index.ts"@));
    assert(files.contains_key("ui/index.html"@));
    assert(files.contains_key("test/contract.test.mjs"@));
    assert(files.contains_key(".github/workflows/deploy-cloudflare.yml"@));
}

} // verus!
