//! The tools a session offers, as they are announced.
use crate::json::{lemma_trees_push, trees, Json, JsonTree};
use crate::server_search::texts_tree;
use vstd::prelude::*;

verus! {

/// A list of names as data.
fn names_json(names: &Vec<&'static str>) -> (r: Json)
    ensures
        r@ == texts_tree(names@.map_values(|s: &'static str| s@)),
{
    let mut out: Vec<Json> = Vec::new();
    let ghost all = names@.map_values(|s: &'static str| s@);
    let ghost f = |s: Seq<char>| JsonTree::Text(s);
    let mut i: usize = 0;
    assert(trees(out@) =~= all.take(0).map_values(f));
    while i < names.len()
        invariant
            i <= names@.len(),
            all == names@.map_values(|s: &'static str| s@),
            f == (|s: Seq<char>| JsonTree::Text(s)),
            trees(out@) == all.take(i as int).map_values(f),
        decreases names@.len() - i,
    {
        let item = Json::text(names[i]);
        proof {
            lemma_trees_push(out@, item);
            assert(all.take(i + 1).map_values(f) =~= all.take(i as int).map_values(f).push(item@));
        }
        out.push(item);
        i += 1;
    }
    assert(all.take(all.len() as int) =~= all);
    Json::List(out)
}

/// An argument that is a text.
pub open spec fn text_property_tree(description: Seq<char>) -> JsonTree {
    JsonTree::Object(
        Map::<Seq<char>, JsonTree>::empty().insert("type"@, JsonTree::Text("string"@)).insert(
            "description"@,
            JsonTree::Text(description),
        ),
    )
}

fn text_property(description: &str) -> (r: Json)
    ensures
        r@ == text_property_tree(description@),
{
    Json::object().put("type", Json::text("string")).put("description", Json::text(description))
}

/// An argument that is a text and may be left out.
pub open spec fn text_with_default_tree(default: Seq<char>, description: Seq<char>) -> JsonTree {
    JsonTree::Object(
        Map::<Seq<char>, JsonTree>::empty().insert("type"@, JsonTree::Text("string"@)).insert(
            "default"@,
            JsonTree::Text(default),
        ).insert("description"@, JsonTree::Text(description)),
    )
}

fn text_with_default(default: &str, description: &str) -> (r: Json)
    ensures
        r@ == text_with_default_tree(default@, description@),
{
    Json::object().put("type", Json::text("string")).put("default", Json::text(default)).put(
        "description",
        Json::text(description),
    )
}

/// An argument that is a list of texts.
pub open spec fn list_property_tree(description: Seq<char>) -> JsonTree {
    JsonTree::Object(
        Map::<Seq<char>, JsonTree>::empty().insert("type"@, JsonTree::Text("array"@)).insert(
            "items"@,
            JsonTree::Object(
                Map::<Seq<char>, JsonTree>::empty().insert("type"@, JsonTree::Text("string"@)),
            ),
        ).insert("description"@, JsonTree::Text(description)),
    )
}

fn list_property(description: &str) -> (r: Json)
    ensures
        r@ == list_property_tree(description@),
{
    let items = Json::object().put("type", Json::text("string"));
    Json::object().put("type", Json::text("array")).put("items", items).put(
        "description",
        Json::text(description),
    )
}

/// An argument that is a switch, off where it is left out.
pub open spec fn flag_property_tree(description: Seq<char>) -> JsonTree {
    JsonTree::Object(
        Map::<Seq<char>, JsonTree>::empty().insert("type"@, JsonTree::Text("boolean"@)).insert(
            "default"@,
            JsonTree::Bool(false),
        ).insert("description"@, JsonTree::Text(description)),
    )
}

fn flag_property(description: &str) -> (r: Json)
    ensures
        r@ == flag_property_tree(description@),
{
    Json::object().put("type", Json::text("boolean")).put("default", Json::Bool(false)).put(
        "description",
        Json::text(description),
    )
}

/// An argument that is one of several texts.
pub open spec fn choice_property_tree(
    choices: Seq<Seq<char>>,
    default: Seq<char>,
    description: Seq<char>,
) -> JsonTree {
    JsonTree::Object(
        Map::<Seq<char>, JsonTree>::empty().insert("type"@, JsonTree::Text("string"@)).insert(
            "enum"@,
            texts_tree(choices),
        ).insert("default"@, JsonTree::Text(default)).insert(
            "description"@,
            JsonTree::Text(description),
        ),
    )
}

fn choice_property(choices: &Vec<&'static str>, default: &str, description: &str) -> (r: Json)
    ensures
        r@ == choice_property_tree(
            choices@.map_values(|s: &'static str| s@),
            default@,
            description@,
        ),
{
    Json::object().put("type", Json::text("string")).put("enum", names_json(choices)).put(
        "default",
        Json::text(default),
    ).put("description", Json::text(description))
}

/// An argument that is an integer, with its bounds and default where it has
/// them.
pub open spec fn number_property_tree(
    minimum: u64,
    maximum: Option<u64>,
    default: Option<u64>,
    description: Option<Seq<char>>,
) -> JsonTree {
    let least = Map::<Seq<char>, JsonTree>::empty().insert(
        "type"@,
        JsonTree::Text("integer"@),
    ).insert("minimum"@, JsonTree::unsigned(minimum));
    let most = match maximum {
        Some(n) => least.insert("maximum"@, JsonTree::unsigned(n)),
        None => least,
    };
    let usual = match default {
        Some(n) => most.insert("default"@, JsonTree::unsigned(n)),
        None => most,
    };
    JsonTree::Object(
        match description {
            Some(d) => usual.insert("description"@, JsonTree::Text(d)),
            None => usual,
        },
    )
}

fn number_property(
    minimum: u64,
    maximum: Option<u64>,
    default: Option<u64>,
    description: Option<&'static str>,
) -> (r: Json)
    ensures
        r@ == number_property_tree(
            minimum,
            maximum,
            default,
            match description {
                Some(d) => Some(d@),
                None => None,
            },
        ),
{
    let least = Json::object().put("type", Json::text("integer")).put(
        "minimum",
        Json::unsigned(minimum),
    );
    let most = match maximum {
        Some(n) => least.put("maximum", Json::unsigned(n)),
        None => least,
    };
    let usual = match default {
        Some(n) => most.put("default", Json::unsigned(n)),
        None => most,
    };
    match description {
        Some(d) => usual.put("description", Json::text(d)),
        None => usual,
    }
}

/// A tool as it is announced.
pub open spec fn tool_tree(
    name: Seq<char>,
    title: Seq<char>,
    description: Seq<char>,
    schema: JsonTree,
) -> JsonTree {
    JsonTree::Object(
        Map::<Seq<char>, JsonTree>::empty().insert("name"@, JsonTree::Text(name)).insert(
            "title"@,
            JsonTree::Text(title),
        ).insert("description"@, JsonTree::Text(description)).insert("inputSchema"@, schema),
    )
}

/// A tool as it is announced.
pub fn tool(name: &str, title: &str, description: &str, schema: Json) -> (r: Json)
    ensures
        r@ == tool_tree(name@, title@, description@, schema@),
{
    Json::object().put("name", Json::text(name)).put("title", Json::text(title)).put(
        "description",
        Json::text(description),
    ).put("inputSchema", schema)
}

/// The schema of a tool's arguments.
pub open spec fn object_schema_tree(properties: JsonTree, required: Seq<Seq<char>>) -> JsonTree {
    JsonTree::Object(
        Map::<Seq<char>, JsonTree>::empty().insert("type"@, JsonTree::Text("object"@)).insert(
            "properties"@,
            properties,
        ).insert("required"@, texts_tree(required)),
    )
}

/// The schema of a tool's arguments.
pub fn object_schema(properties: Json, required: &Vec<&'static str>) -> (r: Json)
    ensures
        r@ == object_schema_tree(properties@, required@.map_values(|s: &'static str| s@)),
{
    Json::object().put("type", Json::text("object")).put("properties", properties).put(
        "required",
        names_json(required),
    )
}

/// The arguments that scope a query, the same for every tool that has them.
#[verifier::opaque]
pub open spec fn scoping_properties_map() -> Map<Seq<char>, JsonTree> {
    Map::<Seq<char>, JsonTree>::empty().insert(
        "path"@,
        text_property_tree("Subdirectory or file under the server root to restrict the query to. Defaults to the whole root."@),
    ).insert(
        "glob"@,
        list_property_tree("Glob filters, e.g. [\"src/**/*.rs\"]. A leading '!' excludes. Positive globs can reinclude ignored files and then require a full scan."@),
    ).insert(
        "type"@,
        list_property_tree("File type filters, e.g. [\"rust\", \"py\"]. Cheaper than globs and always indexed."@),
    ).insert(
        "type_not"@,
        list_property_tree("File types to exclude."@),
    ).insert(
        "hidden"@,
        flag_property_tree("Include hidden files and directories. Ignore rules still apply."@),
    ).insert(
        "wait_seconds"@,
        number_property_tree(0, Some(600), Some(3), Some("How long to wait for a building index before answering. Raise it on a large repository whose first index is still being built."@)),
    )
}

/// The arguments that scope a query, the same for every tool that has them.
pub fn scoping_properties() -> (r: Json)
    ensures
        r@ == JsonTree::Object(scoping_properties_map()),
{
    proof {
        reveal(scoping_properties_map);
    }
    Json::object().put(
        "path",
        text_property("Subdirectory or file under the server root to restrict the query to. Defaults to the whole root."),
    ).put(
        "glob",
        list_property("Glob filters, e.g. [\"src/**/*.rs\"]. A leading '!' excludes. Positive globs can reinclude ignored files and then require a full scan."),
    ).put(
        "type",
        list_property("File type filters, e.g. [\"rust\", \"py\"]. Cheaper than globs and always indexed."),
    ).put(
        "type_not",
        list_property("File types to exclude."),
    ).put(
        "hidden",
        flag_property("Include hidden files and directories. Ignore rules still apply."),
    ).put(
        "wait_seconds",
        number_property(0, Some(600), Some(3), Some("How long to wait for a building index before answering. Raise it on a large repository whose first index is still being built.")),
    )
}

/// The arguments that say what matches, and those that scope it.
#[verifier::opaque]
pub open spec fn matching_properties_map() -> Map<Seq<char>, JsonTree> {
    scoping_properties_map().insert(
        "pattern"@,
        text_property_tree("Regular expression, or exact text when literal is true."@),
    ).insert(
        "literal"@,
        flag_property_tree("Treat pattern as literal text. Prefer this for symbols and user-supplied strings."@),
    ).insert(
        "case"@,
        choice_property_tree(seq!["smart"@, "sensitive"@, "insensitive"@], "smart"@, "smart: case-insensitive only when the pattern is all lowercase."@),
    ).insert(
        "word"@,
        flag_property_tree("Match whole words only."@),
    ).insert(
        "allow_scan"@,
        flag_property_tree("Run a whole-repository scan even when the index is not ready. Refused by default: on a large tree that reads every file and takes far longer than waiting for the index."@),
    )
}

/// The arguments that say what matches, and those that scope it.
pub fn matching_properties() -> (r: Json)
    ensures
        r@ == JsonTree::Object(matching_properties_map()),
{
    proof {
        reveal(matching_properties_map);
    }
    let choices: Vec<&'static str> = vec!["smart", "sensitive", "insensitive"];
    proof {
        assert(choices@.map_values(|s: &'static str| s@) =~= seq!["smart"@, "sensitive"@, "insensitive"@]);
    }
    scoping_properties().put(
        "pattern",
        text_property("Regular expression, or exact text when literal is true."),
    ).put(
        "literal",
        flag_property("Treat pattern as literal text. Prefer this for symbols and user-supplied strings."),
    ).put(
        "case",
        choice_property(&choices, "smart", "smart: case-insensitive only when the pattern is all lowercase."),
    ).put(
        "word",
        flag_property("Match whole words only."),
    ).put(
        "allow_scan",
        flag_property("Run a whole-repository scan even when the index is not ready. Refused by default: on a large tree that reads every file and takes far longer than waiting for the index."),
    )
}

/// The arguments of `search`.
#[verifier::opaque]
pub open spec fn search_properties_map() -> Map<Seq<char>, JsonTree> {
    matching_properties_map().insert(
        "context"@,
        number_property_tree(0, Some(20), Some(0), Some("Lines of context around each match."@)),
    ).insert(
        "max_results"@,
        number_property_tree(1, Some(1000), Some(60), Some("Total matches to report. The true total is reported even when truncated."@)),
    ).insert(
        "max_per_file"@,
        number_property_tree(1, None, Some(10), Some("Matching lines to report per file, so one generated file cannot crowd out the rest."@)),
    ).insert(
        "multiline"@,
        flag_property_tree("Let a match span line boundaries."@),
    ).insert(
        "invert"@,
        flag_property_tree("Report lines that do NOT match."@),
    )
}

/// The arguments of `search`.
fn search_properties() -> (r: Json)
    ensures
        r@ == JsonTree::Object(search_properties_map()),
{
    proof {
        reveal(search_properties_map);
    }
    matching_properties().put(
        "context",
        number_property(0, Some(20), Some(0), Some("Lines of context around each match.")),
    ).put(
        "max_results",
        number_property(1, Some(1000), Some(60), Some("Total matches to report. The true total is reported even when truncated.")),
    ).put(
        "max_per_file",
        number_property(1, None, Some(10), Some("Matching lines to report per file, so one generated file cannot crowd out the rest.")),
    ).put(
        "multiline",
        flag_property("Let a match span line boundaries."),
    ).put(
        "invert",
        flag_property("Report lines that do NOT match."),
    )
}

/// How `search` is announced.
pub open spec fn search_tool_tree() -> JsonTree {
    tool_tree(
        "search"@,
        "Search code"@,
        "Regex or literal search across the repository, answered from a trigram index. Returns matching lines with paths, line numbers and optional context. Scope with path/glob/type on a large repository; the reply reports the true match total even when the listing is truncated."@,
        object_schema_tree(JsonTree::Object(search_properties_map()), seq!["pattern"@]),
    )
}

fn search_tool() -> (r: Json)
    ensures
        r@ == search_tool_tree(),
{
    let required: Vec<&'static str> = vec!["pattern"];
    assert(required@.map_values(|s: &'static str| s@) =~= seq!["pattern"@]);
    tool(
        "search",
        "Search code",
        "Regex or literal search across the repository, answered from a trigram index. Returns matching lines with paths, line numbers and optional context. Scope with path/glob/type on a large repository; the reply reports the true match total even when the listing is truncated.",
        object_schema(search_properties(), &required),
    )
}

/// The arguments of `count_matches`.
#[verifier::opaque]
pub open spec fn count_properties_map() -> Map<Seq<char>, JsonTree> {
    matching_properties_map().insert(
        "max_files"@,
        number_property_tree(1, Some(1000), Some(40), Some("Files to list, ordered by match count."@)),
    )
}

/// The arguments of `count_matches`.
fn count_properties() -> (r: Json)
    ensures
        r@ == JsonTree::Object(count_properties_map()),
{
    proof {
        reveal(count_properties_map);
    }
    matching_properties().put(
        "max_files",
        number_property(1, Some(1000), Some(40), Some("Files to list, ordered by match count.")),
    )
}

/// How `count_matches` is announced.
pub open spec fn count_tool_tree() -> JsonTree {
    tool_tree(
        "count_matches"@,
        "Count matches per file"@,
        "Match counts per file, ordered by count — the cheap way to size a query and see where hits cluster before running `search`. Reads the whole match set but returns only the distribution."@,
        object_schema_tree(JsonTree::Object(count_properties_map()), seq!["pattern"@]),
    )
}

fn count_tool() -> (r: Json)
    ensures
        r@ == count_tool_tree(),
{
    let required: Vec<&'static str> = vec!["pattern"];
    assert(required@.map_values(|s: &'static str| s@) =~= seq!["pattern"@]);
    tool(
        "count_matches",
        "Count matches per file",
        "Match counts per file, ordered by count — the cheap way to size a query and see where hits cluster before running `search`. Reads the whole match set but returns only the distribution.",
        object_schema(count_properties(), &required),
    )
}

/// The arguments of `search_files`.
#[verifier::opaque]
pub open spec fn files_properties_map() -> Map<Seq<char>, JsonTree> {
    scoping_properties_map().insert(
        "contains"@,
        text_property_tree("Case-insensitive substring the path must contain."@),
    ).insert(
        "max_results"@,
        number_property_tree(1, Some(5000), Some(200), None),
    )
}

/// The arguments of `search_files`.
fn files_properties() -> (r: Json)
    ensures
        r@ == JsonTree::Object(files_properties_map()),
{
    proof {
        reveal(files_properties_map);
    }
    scoping_properties().put(
        "contains",
        text_property("Case-insensitive substring the path must contain."),
    ).put(
        "max_results",
        number_property(1, Some(5000), Some(200), None),
    )
}

/// How `search_files` is announced.
pub open spec fn files_tool_tree() -> JsonTree {
    tool_tree(
        "search_files"@,
        "Find files by path"@,
        "List files that would be searched, filtered by glob, type or a path substring. Answers from the index rather than walking the tree when it can."@,
        object_schema_tree(JsonTree::Object(files_properties_map()), Seq::<Seq<char>>::empty()),
    )
}

fn files_tool() -> (r: Json)
    ensures
        r@ == files_tool_tree(),
{
    let required: Vec<&'static str> = vec![];
    assert(required@.map_values(|s: &'static str| s@) =~= Seq::<Seq<char>>::empty());
    tool(
        "search_files",
        "Find files by path",
        "List files that would be searched, filtered by glob, type or a path substring. Answers from the index rather than walking the tree when it can.",
        object_schema(files_properties(), &required),
    )
}

/// The arguments of `index_status`.
#[verifier::opaque]
pub open spec fn status_properties_map() -> Map<Seq<char>, JsonTree> {
    Map::<Seq<char>, JsonTree>::empty().insert(
        "wait_seconds"@,
        number_property_tree(0, Some(600), None, Some("Wait up to this long for the index to become ready. Returns early once it is, or once nothing is building it."@)),
    )
}

/// The arguments of `index_status`.
fn status_properties() -> (r: Json)
    ensures
        r@ == JsonTree::Object(status_properties_map()),
{
    proof {
        reveal(status_properties_map);
    }
    Json::object().put(
        "wait_seconds",
        number_property(0, Some(600), None, Some("Wait up to this long for the index to become ready. Returns early once it is, or once nothing is building it.")),
    )
}

/// How `index_status` is announced.
pub open spec fn status_tool_tree() -> JsonTree {
    tool_tree(
        "index_status"@,
        "Index status"@,
        "Whether queries are answered from the index or by scanning, how far an initial build has got, and how the server is watching for changes. Pass wait_seconds to block until the index is ready — the right way to open a session on a large repository that has not been indexed before."@,
        object_schema_tree(JsonTree::Object(status_properties_map()), Seq::<Seq<char>>::empty()),
    )
}

fn status_tool() -> (r: Json)
    ensures
        r@ == status_tool_tree(),
{
    let required: Vec<&'static str> = vec![];
    assert(required@.map_values(|s: &'static str| s@) =~= Seq::<Seq<char>>::empty());
    tool(
        "index_status",
        "Index status",
        "Whether queries are answered from the index or by scanning, how far an initial build has got, and how the server is watching for changes. Pass wait_seconds to block until the index is ready — the right way to open a session on a large repository that has not been indexed before.",
        object_schema(status_properties(), &required),
    )
}

/// The arguments of `snapshot_create`.
#[verifier::opaque]
pub open spec fn create_properties_map() -> Map<Seq<char>, JsonTree> {
    Map::<Seq<char>, JsonTree>::empty().insert(
        "label"@,
        text_property_tree("Name for the snapshot (letters, digits, '.', '_', '-'). Defaults to a timestamp."@),
    ).insert(
        "hash"@,
        flag_property_tree("Also record a blake3 hash per file. Reads the whole tree."@),
    ).insert(
        "no_ignore"@,
        flag_property_tree("Include files .gitignore would exclude."@),
    ).insert(
        "overwrite"@,
        flag_property_tree("Replace an existing snapshot with the same label."@),
    )
}

/// The arguments of `snapshot_create`.
fn create_properties() -> (r: Json)
    ensures
        r@ == JsonTree::Object(create_properties_map()),
{
    proof {
        reveal(create_properties_map);
    }
    Json::object().put(
        "label",
        text_property("Name for the snapshot (letters, digits, '.', '_', '-'). Defaults to a timestamp."),
    ).put(
        "hash",
        flag_property("Also record a blake3 hash per file. Reads the whole tree."),
    ).put(
        "no_ignore",
        flag_property("Include files .gitignore would exclude."),
    ).put(
        "overwrite",
        flag_property("Replace an existing snapshot with the same label."),
    )
}

/// How `snapshot_create` is announced.
pub open spec fn create_tool_tree() -> JsonTree {
    tool_tree(
        "snapshot_create"@,
        "Snapshot the tree"@,
        "Record the current state of every file the walker admits (size, mtime and precise change evidence) under a name, to diff against later. Metadata only by default; hash=true also records content hashes, which is what makes verification and rename detection possible — at the cost of reading every file once."@,
        object_schema_tree(JsonTree::Object(create_properties_map()), Seq::<Seq<char>>::empty()),
    )
}

fn create_tool() -> (r: Json)
    ensures
        r@ == create_tool_tree(),
{
    let required: Vec<&'static str> = vec![];
    assert(required@.map_values(|s: &'static str| s@) =~= Seq::<Seq<char>>::empty());
    tool(
        "snapshot_create",
        "Snapshot the tree",
        "Record the current state of every file the walker admits (size, mtime and precise change evidence) under a name, to diff against later. Metadata only by default; hash=true also records content hashes, which is what makes verification and rename detection possible — at the cost of reading every file once.",
        object_schema(create_properties(), &required),
    )
}

/// The arguments of `snapshot_list`.
#[verifier::opaque]
pub open spec fn listing_properties_map() -> Map<Seq<char>, JsonTree> {
    Map::<Seq<char>, JsonTree>::empty()
}

/// The arguments of `snapshot_list`.
fn listing_properties() -> (r: Json)
    ensures
        r@ == JsonTree::Object(listing_properties_map()),
{
    proof {
        reveal(listing_properties_map);
    }
    Json::object()
}

/// How `snapshot_list` is announced.
pub open spec fn listing_tool_tree() -> JsonTree {
    tool_tree(
        "snapshot_list"@,
        "List snapshots"@,
        "Existing snapshots for this repository, newest first, with their age, file count and whether they carry content hashes."@,
        object_schema_tree(JsonTree::Object(listing_properties_map()), Seq::<Seq<char>>::empty()),
    )
}

fn listing_tool() -> (r: Json)
    ensures
        r@ == listing_tool_tree(),
{
    let required: Vec<&'static str> = vec![];
    assert(required@.map_values(|s: &'static str| s@) =~= Seq::<Seq<char>>::empty());
    tool(
        "snapshot_list",
        "List snapshots",
        "Existing snapshots for this repository, newest first, with their age, file count and whether they carry content hashes.",
        object_schema(listing_properties(), &required),
    )
}

/// The arguments of `snapshot_diff`.
#[verifier::opaque]
pub open spec fn diff_properties_map() -> Map<Seq<char>, JsonTree> {
    Map::<Seq<char>, JsonTree>::empty().insert(
        "base"@,
        text_property_tree("Snapshot id to compare from."@),
    ).insert(
        "target"@,
        text_with_default_tree("live"@, "'live' for the current tree, or another snapshot id."@),
    ).insert(
        "verify"@,
        choice_property_tree(seq!["none"@, "suspect"@, "all"@], "none"@, "Content verification. 'suspect' hashes files flagged by metadata alone; 'all' hashes every common file. Requires a base snapshot created with hash=true."@),
    ).insert(
        "detect_renames"@,
        flag_property_tree("Pair deletions with additions carrying identical content. Requires a hashed base snapshot and a live target."@),
    ).insert(
        "path"@,
        text_property_tree("Restrict the diff to this subdirectory."@),
    ).insert(
        "max_entries"@,
        number_property_tree(1, Some(5000), Some(200), Some("Paths listed per category. Counts and a directory breakdown cover the rest."@)),
    )
}

/// The arguments of `snapshot_diff`.
fn diff_properties() -> (r: Json)
    ensures
        r@ == JsonTree::Object(diff_properties_map()),
{
    proof {
        reveal(diff_properties_map);
    }
    let choices: Vec<&'static str> = vec!["none", "suspect", "all"];
    proof {
        assert(choices@.map_values(|s: &'static str| s@) =~= seq!["none"@, "suspect"@, "all"@]);
    }
    Json::object().put(
        "base",
        text_property("Snapshot id to compare from."),
    ).put(
        "target",
        text_with_default("live", "'live' for the current tree, or another snapshot id."),
    ).put(
        "verify",
        choice_property(&choices, "none", "Content verification. 'suspect' hashes files flagged by metadata alone; 'all' hashes every common file. Requires a base snapshot created with hash=true."),
    ).put(
        "detect_renames",
        flag_property("Pair deletions with additions carrying identical content. Requires a hashed base snapshot and a live target."),
    ).put(
        "path",
        text_property("Restrict the diff to this subdirectory."),
    ).put(
        "max_entries",
        number_property(1, Some(5000), Some(200), Some("Paths listed per category. Counts and a directory breakdown cover the rest.")),
    )
}

/// How `snapshot_diff` is announced.
pub open spec fn diff_tool_tree() -> JsonTree {
    tool_tree(
        "snapshot_diff"@,
        "Diff against a snapshot"@,
        "What has been added, modified, deleted or renamed since a snapshot. Compares against the tree as it is now by default, or against a second snapshot. verify='suspect' re-reads metadata-flagged files and drops the ones whose content is unchanged (needs a hashed base snapshot)."@,
        object_schema_tree(JsonTree::Object(diff_properties_map()), seq!["base"@]),
    )
}

fn diff_tool() -> (r: Json)
    ensures
        r@ == diff_tool_tree(),
{
    let required: Vec<&'static str> = vec!["base"];
    assert(required@.map_values(|s: &'static str| s@) =~= seq!["base"@]);
    tool(
        "snapshot_diff",
        "Diff against a snapshot",
        "What has been added, modified, deleted or renamed since a snapshot. Compares against the tree as it is now by default, or against a second snapshot. verify='suspect' re-reads metadata-flagged files and drops the ones whose content is unchanged (needs a hashed base snapshot).",
        object_schema(diff_properties(), &required),
    )
}

/// The arguments of `snapshot_delete`.
#[verifier::opaque]
pub open spec fn delete_properties_map() -> Map<Seq<char>, JsonTree> {
    Map::<Seq<char>, JsonTree>::empty().insert(
        "id"@,
        text_property_tree("Snapshot id to delete."@),
    )
}

/// The arguments of `snapshot_delete`.
fn delete_properties() -> (r: Json)
    ensures
        r@ == JsonTree::Object(delete_properties_map()),
{
    proof {
        reveal(delete_properties_map);
    }
    Json::object().put(
        "id",
        text_property("Snapshot id to delete."),
    )
}

/// How `snapshot_delete` is announced.
pub open spec fn delete_tool_tree() -> JsonTree {
    tool_tree(
        "snapshot_delete"@,
        "Delete a snapshot"@,
        "Remove a stored snapshot."@,
        object_schema_tree(JsonTree::Object(delete_properties_map()), seq!["id"@]),
    )
}

fn delete_tool() -> (r: Json)
    ensures
        r@ == delete_tool_tree(),
{
    let required: Vec<&'static str> = vec!["id"];
    assert(required@.map_values(|s: &'static str| s@) =~= seq!["id"@]);
    tool(
        "snapshot_delete",
        "Delete a snapshot",
        "Remove a stored snapshot.",
        object_schema(delete_properties(), &required),
    )
}

/// The tools in the order in which they are announced.
pub open spec fn tool_trees() -> Seq<JsonTree> {
    seq![
        search_tool_tree(),
        count_tool_tree(),
        files_tool_tree(),
        status_tool_tree(),
        create_tool_tree(),
        listing_tool_tree(),
        diff_tool_tree(),
        delete_tool_tree(),
    ]
}

/// The tools in the order in which they are announced.
pub fn tool_definitions() -> (r: Vec<Json>)
    ensures
        trees(r@) == tool_trees(),
{
    let mut out: Vec<Json> = Vec::new();
    let search = search_tool();
    let count = count_tool();
    let files = files_tool();
    let status = status_tool();
    let create = create_tool();
    let listing = listing_tool();
    let diff = diff_tool();
    let delete = delete_tool();
    proof {
        lemma_trees_push(out@, search);
        lemma_trees_push(out@.push(search), count);
        lemma_trees_push(out@.push(search).push(count), files);
        lemma_trees_push(out@.push(search).push(count).push(files), status);
        lemma_trees_push(out@.push(search).push(count).push(files).push(status), create);
        lemma_trees_push(out@.push(search).push(count).push(files).push(status).push(create), listing);
        lemma_trees_push(out@.push(search).push(count).push(files).push(status).push(create).push(listing), diff);
        lemma_trees_push(out@.push(search).push(count).push(files).push(status).push(create).push(listing).push(diff), delete);
    }
    out.push(search);
    out.push(count);
    out.push(files);
    out.push(status);
    out.push(create);
    out.push(listing);
    out.push(diff);
    out.push(delete);
    assert(trees(out@) =~= tool_trees());
    out
}

} // verus!
