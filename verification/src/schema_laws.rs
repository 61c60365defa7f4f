//! What the announced tools take.
use crate::json::JsonTree;
use crate::mcp_tools::{
    choice_property_tree, count_properties_map, count_tool_tree, create_properties_map,
    create_tool_tree, delete_properties_map, delete_tool_tree, diff_properties_map, diff_tool_tree,
    files_properties_map, files_tool_tree, flag_property_tree, list_property_tree,
    listing_tool_tree, matching_properties_map, number_property_tree, object_schema_tree,
    scoping_properties_map, search_properties_map, search_tool_tree, status_properties_map,
    status_tool_tree, text_property_tree, text_with_default_tree, tool_tree, tool_trees,
};
use vstd::prelude::*;

verus! {

proof fn lemma_schema_keys()
    ensures
        "type"@ != "items"@,
        "type"@ != "default"@,
        "type"@ != "enum"@,
        "type"@ != "minimum"@,
        "type"@ != "maximum"@,
        "type"@ != "description"@,
        "type"@ != "name"@,
        "type"@ != "title"@,
        "type"@ != "inputSchema"@,
        "type"@ != "properties"@,
        "type"@ != "required"@,
        "items"@ != "default"@,
        "items"@ != "enum"@,
        "items"@ != "minimum"@,
        "items"@ != "maximum"@,
        "items"@ != "description"@,
        "items"@ != "name"@,
        "items"@ != "title"@,
        "items"@ != "inputSchema"@,
        "items"@ != "properties"@,
        "items"@ != "required"@,
        "default"@ != "enum"@,
        "default"@ != "minimum"@,
        "default"@ != "maximum"@,
        "default"@ != "description"@,
        "default"@ != "name"@,
        "default"@ != "title"@,
        "default"@ != "inputSchema"@,
        "default"@ != "properties"@,
        "default"@ != "required"@,
        "enum"@ != "minimum"@,
        "enum"@ != "maximum"@,
        "enum"@ != "description"@,
        "enum"@ != "name"@,
        "enum"@ != "title"@,
        "enum"@ != "inputSchema"@,
        "enum"@ != "properties"@,
        "enum"@ != "required"@,
        "minimum"@ != "maximum"@,
        "minimum"@ != "description"@,
        "minimum"@ != "name"@,
        "minimum"@ != "title"@,
        "minimum"@ != "inputSchema"@,
        "minimum"@ != "properties"@,
        "minimum"@ != "required"@,
        "maximum"@ != "description"@,
        "maximum"@ != "name"@,
        "maximum"@ != "title"@,
        "maximum"@ != "inputSchema"@,
        "maximum"@ != "properties"@,
        "maximum"@ != "required"@,
        "description"@ != "name"@,
        "description"@ != "title"@,
        "description"@ != "inputSchema"@,
        "description"@ != "properties"@,
        "description"@ != "required"@,
        "name"@ != "title"@,
        "name"@ != "inputSchema"@,
        "name"@ != "properties"@,
        "name"@ != "required"@,
        "title"@ != "inputSchema"@,
        "title"@ != "properties"@,
        "title"@ != "required"@,
        "inputSchema"@ != "properties"@,
        "inputSchema"@ != "required"@,
        "properties"@ != "required"@,
{
    reveal_strlit("type");
    reveal_strlit("items");
    reveal_strlit("default");
    reveal_strlit("enum");
    reveal_strlit("minimum");
    reveal_strlit("maximum");
    reveal_strlit("description");
    reveal_strlit("name");
    reveal_strlit("title");
    reveal_strlit("inputSchema");
    reveal_strlit("properties");
    reveal_strlit("required");
    assert("type"@.len() == 4);
    assert("items"@.len() == 5);
    assert("default"@.len() == 7);
    assert("enum"@.len() == 4);
    assert("minimum"@.len() == 7);
    assert("maximum"@.len() == 7);
    assert("description"@.len() == 11);
    assert("name"@.len() == 4);
    assert("title"@.len() == 5);
    assert("inputSchema"@.len() == 11);
    assert("properties"@.len() == 10);
    assert("required"@.len() == 8);
    assert("type"@[0] != "enum"@[0]);
    assert("type"@[0] != "name"@[0]);
    assert("items"@[0] != "title"@[0]);
    assert("default"@[0] != "minimum"@[0]);
    assert("default"@[0] != "maximum"@[0]);
    assert("enum"@[0] != "name"@[0]);
    assert("minimum"@[1] != "maximum"@[1]);
    assert("description"@[0] != "inputSchema"@[0]);
}

proof fn lemma_property_keys()
    ensures
        "path"@ != "glob"@,
        "path"@ != "type"@,
        "path"@ != "type_not"@,
        "path"@ != "hidden"@,
        "path"@ != "wait_seconds"@,
        "path"@ != "pattern"@,
        "path"@ != "literal"@,
        "path"@ != "case"@,
        "path"@ != "word"@,
        "path"@ != "allow_scan"@,
        "path"@ != "context"@,
        "path"@ != "max_results"@,
        "path"@ != "max_per_file"@,
        "path"@ != "multiline"@,
        "path"@ != "invert"@,
        "path"@ != "max_files"@,
        "path"@ != "contains"@,
        "path"@ != "label"@,
        "path"@ != "hash"@,
        "path"@ != "no_ignore"@,
        "path"@ != "overwrite"@,
        "path"@ != "base"@,
        "path"@ != "target"@,
        "path"@ != "verify"@,
        "path"@ != "detect_renames"@,
        "path"@ != "max_entries"@,
        "path"@ != "id"@,
        "glob"@ != "type"@,
        "glob"@ != "type_not"@,
        "glob"@ != "hidden"@,
        "glob"@ != "wait_seconds"@,
        "glob"@ != "pattern"@,
        "glob"@ != "literal"@,
        "glob"@ != "case"@,
        "glob"@ != "word"@,
        "glob"@ != "allow_scan"@,
        "glob"@ != "context"@,
        "glob"@ != "max_results"@,
        "glob"@ != "max_per_file"@,
        "glob"@ != "multiline"@,
        "glob"@ != "invert"@,
        "glob"@ != "max_files"@,
        "glob"@ != "contains"@,
        "glob"@ != "label"@,
        "glob"@ != "hash"@,
        "glob"@ != "no_ignore"@,
        "glob"@ != "overwrite"@,
        "glob"@ != "base"@,
        "glob"@ != "target"@,
        "glob"@ != "verify"@,
        "glob"@ != "detect_renames"@,
        "glob"@ != "max_entries"@,
        "glob"@ != "id"@,
        "type"@ != "type_not"@,
        "type"@ != "hidden"@,
        "type"@ != "wait_seconds"@,
        "type"@ != "pattern"@,
        "type"@ != "literal"@,
        "type"@ != "case"@,
        "type"@ != "word"@,
        "type"@ != "allow_scan"@,
        "type"@ != "context"@,
        "type"@ != "max_results"@,
        "type"@ != "max_per_file"@,
        "type"@ != "multiline"@,
        "type"@ != "invert"@,
        "type"@ != "max_files"@,
        "type"@ != "contains"@,
        "type"@ != "label"@,
        "type"@ != "hash"@,
        "type"@ != "no_ignore"@,
        "type"@ != "overwrite"@,
        "type"@ != "base"@,
        "type"@ != "target"@,
        "type"@ != "verify"@,
        "type"@ != "detect_renames"@,
        "type"@ != "max_entries"@,
        "type"@ != "id"@,
        "type_not"@ != "hidden"@,
        "type_not"@ != "wait_seconds"@,
        "type_not"@ != "pattern"@,
        "type_not"@ != "literal"@,
        "type_not"@ != "case"@,
        "type_not"@ != "word"@,
        "type_not"@ != "allow_scan"@,
        "type_not"@ != "context"@,
        "type_not"@ != "max_results"@,
        "type_not"@ != "max_per_file"@,
        "type_not"@ != "multiline"@,
        "type_not"@ != "invert"@,
        "type_not"@ != "max_files"@,
        "type_not"@ != "contains"@,
        "type_not"@ != "label"@,
        "type_not"@ != "hash"@,
        "type_not"@ != "no_ignore"@,
        "type_not"@ != "overwrite"@,
        "type_not"@ != "base"@,
        "type_not"@ != "target"@,
        "type_not"@ != "verify"@,
        "type_not"@ != "detect_renames"@,
        "type_not"@ != "max_entries"@,
        "type_not"@ != "id"@,
        "hidden"@ != "wait_seconds"@,
        "hidden"@ != "pattern"@,
        "hidden"@ != "literal"@,
        "hidden"@ != "case"@,
        "hidden"@ != "word"@,
        "hidden"@ != "allow_scan"@,
        "hidden"@ != "context"@,
        "hidden"@ != "max_results"@,
        "hidden"@ != "max_per_file"@,
        "hidden"@ != "multiline"@,
        "hidden"@ != "invert"@,
        "hidden"@ != "max_files"@,
        "hidden"@ != "contains"@,
        "hidden"@ != "label"@,
        "hidden"@ != "hash"@,
        "hidden"@ != "no_ignore"@,
        "hidden"@ != "overwrite"@,
        "hidden"@ != "base"@,
        "hidden"@ != "target"@,
        "hidden"@ != "verify"@,
        "hidden"@ != "detect_renames"@,
        "hidden"@ != "max_entries"@,
        "hidden"@ != "id"@,
        "wait_seconds"@ != "pattern"@,
        "wait_seconds"@ != "literal"@,
        "wait_seconds"@ != "case"@,
        "wait_seconds"@ != "word"@,
        "wait_seconds"@ != "allow_scan"@,
        "wait_seconds"@ != "context"@,
        "wait_seconds"@ != "max_results"@,
        "wait_seconds"@ != "max_per_file"@,
        "wait_seconds"@ != "multiline"@,
        "wait_seconds"@ != "invert"@,
        "wait_seconds"@ != "max_files"@,
        "wait_seconds"@ != "contains"@,
        "wait_seconds"@ != "label"@,
        "wait_seconds"@ != "hash"@,
        "wait_seconds"@ != "no_ignore"@,
        "wait_seconds"@ != "overwrite"@,
        "wait_seconds"@ != "base"@,
        "wait_seconds"@ != "target"@,
        "wait_seconds"@ != "verify"@,
        "wait_seconds"@ != "detect_renames"@,
        "wait_seconds"@ != "max_entries"@,
        "wait_seconds"@ != "id"@,
        "pattern"@ != "literal"@,
        "pattern"@ != "case"@,
        "pattern"@ != "word"@,
        "pattern"@ != "allow_scan"@,
        "pattern"@ != "context"@,
        "pattern"@ != "max_results"@,
        "pattern"@ != "max_per_file"@,
        "pattern"@ != "multiline"@,
        "pattern"@ != "invert"@,
        "pattern"@ != "max_files"@,
        "pattern"@ != "contains"@,
        "pattern"@ != "label"@,
        "pattern"@ != "hash"@,
        "pattern"@ != "no_ignore"@,
        "pattern"@ != "overwrite"@,
        "pattern"@ != "base"@,
        "pattern"@ != "target"@,
        "pattern"@ != "verify"@,
        "pattern"@ != "detect_renames"@,
        "pattern"@ != "max_entries"@,
        "pattern"@ != "id"@,
        "literal"@ != "case"@,
        "literal"@ != "word"@,
        "literal"@ != "allow_scan"@,
        "literal"@ != "context"@,
        "literal"@ != "max_results"@,
        "literal"@ != "max_per_file"@,
        "literal"@ != "multiline"@,
        "literal"@ != "invert"@,
        "literal"@ != "max_files"@,
        "literal"@ != "contains"@,
        "literal"@ != "label"@,
        "literal"@ != "hash"@,
        "literal"@ != "no_ignore"@,
        "literal"@ != "overwrite"@,
        "literal"@ != "base"@,
        "literal"@ != "target"@,
        "literal"@ != "verify"@,
        "literal"@ != "detect_renames"@,
        "literal"@ != "max_entries"@,
        "literal"@ != "id"@,
        "case"@ != "word"@,
        "case"@ != "allow_scan"@,
        "case"@ != "context"@,
        "case"@ != "max_results"@,
        "case"@ != "max_per_file"@,
        "case"@ != "multiline"@,
        "case"@ != "invert"@,
        "case"@ != "max_files"@,
        "case"@ != "contains"@,
        "case"@ != "label"@,
        "case"@ != "hash"@,
        "case"@ != "no_ignore"@,
        "case"@ != "overwrite"@,
        "case"@ != "base"@,
        "case"@ != "target"@,
        "case"@ != "verify"@,
        "case"@ != "detect_renames"@,
        "case"@ != "max_entries"@,
        "case"@ != "id"@,
        "word"@ != "allow_scan"@,
        "word"@ != "context"@,
        "word"@ != "max_results"@,
        "word"@ != "max_per_file"@,
        "word"@ != "multiline"@,
        "word"@ != "invert"@,
        "word"@ != "max_files"@,
        "word"@ != "contains"@,
        "word"@ != "label"@,
        "word"@ != "hash"@,
        "word"@ != "no_ignore"@,
        "word"@ != "overwrite"@,
        "word"@ != "base"@,
        "word"@ != "target"@,
        "word"@ != "verify"@,
        "word"@ != "detect_renames"@,
        "word"@ != "max_entries"@,
        "word"@ != "id"@,
        "allow_scan"@ != "context"@,
        "allow_scan"@ != "max_results"@,
        "allow_scan"@ != "max_per_file"@,
        "allow_scan"@ != "multiline"@,
        "allow_scan"@ != "invert"@,
        "allow_scan"@ != "max_files"@,
        "allow_scan"@ != "contains"@,
        "allow_scan"@ != "label"@,
        "allow_scan"@ != "hash"@,
        "allow_scan"@ != "no_ignore"@,
        "allow_scan"@ != "overwrite"@,
        "allow_scan"@ != "base"@,
        "allow_scan"@ != "target"@,
        "allow_scan"@ != "verify"@,
        "allow_scan"@ != "detect_renames"@,
        "allow_scan"@ != "max_entries"@,
        "allow_scan"@ != "id"@,
        "context"@ != "max_results"@,
        "context"@ != "max_per_file"@,
        "context"@ != "multiline"@,
        "context"@ != "invert"@,
        "context"@ != "max_files"@,
        "context"@ != "contains"@,
        "context"@ != "label"@,
        "context"@ != "hash"@,
        "context"@ != "no_ignore"@,
        "context"@ != "overwrite"@,
        "context"@ != "base"@,
        "context"@ != "target"@,
        "context"@ != "verify"@,
        "context"@ != "detect_renames"@,
        "context"@ != "max_entries"@,
        "context"@ != "id"@,
        "max_results"@ != "max_per_file"@,
        "max_results"@ != "multiline"@,
        "max_results"@ != "invert"@,
        "max_results"@ != "max_files"@,
        "max_results"@ != "contains"@,
        "max_results"@ != "label"@,
        "max_results"@ != "hash"@,
        "max_results"@ != "no_ignore"@,
        "max_results"@ != "overwrite"@,
        "max_results"@ != "base"@,
        "max_results"@ != "target"@,
        "max_results"@ != "verify"@,
        "max_results"@ != "detect_renames"@,
        "max_results"@ != "max_entries"@,
        "max_results"@ != "id"@,
        "max_per_file"@ != "multiline"@,
        "max_per_file"@ != "invert"@,
        "max_per_file"@ != "max_files"@,
        "max_per_file"@ != "contains"@,
        "max_per_file"@ != "label"@,
        "max_per_file"@ != "hash"@,
        "max_per_file"@ != "no_ignore"@,
        "max_per_file"@ != "overwrite"@,
        "max_per_file"@ != "base"@,
        "max_per_file"@ != "target"@,
        "max_per_file"@ != "verify"@,
        "max_per_file"@ != "detect_renames"@,
        "max_per_file"@ != "max_entries"@,
        "max_per_file"@ != "id"@,
        "multiline"@ != "invert"@,
        "multiline"@ != "max_files"@,
        "multiline"@ != "contains"@,
        "multiline"@ != "label"@,
        "multiline"@ != "hash"@,
        "multiline"@ != "no_ignore"@,
        "multiline"@ != "overwrite"@,
        "multiline"@ != "base"@,
        "multiline"@ != "target"@,
        "multiline"@ != "verify"@,
        "multiline"@ != "detect_renames"@,
        "multiline"@ != "max_entries"@,
        "multiline"@ != "id"@,
        "invert"@ != "max_files"@,
        "invert"@ != "contains"@,
        "invert"@ != "label"@,
        "invert"@ != "hash"@,
        "invert"@ != "no_ignore"@,
        "invert"@ != "overwrite"@,
        "invert"@ != "base"@,
        "invert"@ != "target"@,
        "invert"@ != "verify"@,
        "invert"@ != "detect_renames"@,
        "invert"@ != "max_entries"@,
        "invert"@ != "id"@,
        "max_files"@ != "contains"@,
        "max_files"@ != "label"@,
        "max_files"@ != "hash"@,
        "max_files"@ != "no_ignore"@,
        "max_files"@ != "overwrite"@,
        "max_files"@ != "base"@,
        "max_files"@ != "target"@,
        "max_files"@ != "verify"@,
        "max_files"@ != "detect_renames"@,
        "max_files"@ != "max_entries"@,
        "max_files"@ != "id"@,
        "contains"@ != "label"@,
        "contains"@ != "hash"@,
        "contains"@ != "no_ignore"@,
        "contains"@ != "overwrite"@,
        "contains"@ != "base"@,
        "contains"@ != "target"@,
        "contains"@ != "verify"@,
        "contains"@ != "detect_renames"@,
        "contains"@ != "max_entries"@,
        "contains"@ != "id"@,
        "label"@ != "hash"@,
        "label"@ != "no_ignore"@,
        "label"@ != "overwrite"@,
        "label"@ != "base"@,
        "label"@ != "target"@,
        "label"@ != "verify"@,
        "label"@ != "detect_renames"@,
        "label"@ != "max_entries"@,
        "label"@ != "id"@,
        "hash"@ != "no_ignore"@,
        "hash"@ != "overwrite"@,
        "hash"@ != "base"@,
        "hash"@ != "target"@,
        "hash"@ != "verify"@,
        "hash"@ != "detect_renames"@,
        "hash"@ != "max_entries"@,
        "hash"@ != "id"@,
        "no_ignore"@ != "overwrite"@,
        "no_ignore"@ != "base"@,
        "no_ignore"@ != "target"@,
        "no_ignore"@ != "verify"@,
        "no_ignore"@ != "detect_renames"@,
        "no_ignore"@ != "max_entries"@,
        "no_ignore"@ != "id"@,
        "overwrite"@ != "base"@,
        "overwrite"@ != "target"@,
        "overwrite"@ != "verify"@,
        "overwrite"@ != "detect_renames"@,
        "overwrite"@ != "max_entries"@,
        "overwrite"@ != "id"@,
        "base"@ != "target"@,
        "base"@ != "verify"@,
        "base"@ != "detect_renames"@,
        "base"@ != "max_entries"@,
        "base"@ != "id"@,
        "target"@ != "verify"@,
        "target"@ != "detect_renames"@,
        "target"@ != "max_entries"@,
        "target"@ != "id"@,
        "verify"@ != "detect_renames"@,
        "verify"@ != "max_entries"@,
        "verify"@ != "id"@,
        "detect_renames"@ != "max_entries"@,
        "detect_renames"@ != "id"@,
        "max_entries"@ != "id"@,
{
    reveal_strlit("path");
    reveal_strlit("glob");
    reveal_strlit("type");
    reveal_strlit("type_not");
    reveal_strlit("hidden");
    reveal_strlit("wait_seconds");
    reveal_strlit("pattern");
    reveal_strlit("literal");
    reveal_strlit("case");
    reveal_strlit("word");
    reveal_strlit("allow_scan");
    reveal_strlit("context");
    reveal_strlit("max_results");
    reveal_strlit("max_per_file");
    reveal_strlit("multiline");
    reveal_strlit("invert");
    reveal_strlit("max_files");
    reveal_strlit("contains");
    reveal_strlit("label");
    reveal_strlit("hash");
    reveal_strlit("no_ignore");
    reveal_strlit("overwrite");
    reveal_strlit("base");
    reveal_strlit("target");
    reveal_strlit("verify");
    reveal_strlit("detect_renames");
    reveal_strlit("max_entries");
    reveal_strlit("id");
    assert("path"@.len() == 4);
    assert("glob"@.len() == 4);
    assert("type"@.len() == 4);
    assert("type_not"@.len() == 8);
    assert("hidden"@.len() == 6);
    assert("wait_seconds"@.len() == 12);
    assert("pattern"@.len() == 7);
    assert("literal"@.len() == 7);
    assert("case"@.len() == 4);
    assert("word"@.len() == 4);
    assert("allow_scan"@.len() == 10);
    assert("context"@.len() == 7);
    assert("max_results"@.len() == 11);
    assert("max_per_file"@.len() == 12);
    assert("multiline"@.len() == 9);
    assert("invert"@.len() == 6);
    assert("max_files"@.len() == 9);
    assert("contains"@.len() == 8);
    assert("label"@.len() == 5);
    assert("hash"@.len() == 4);
    assert("no_ignore"@.len() == 9);
    assert("overwrite"@.len() == 9);
    assert("base"@.len() == 4);
    assert("target"@.len() == 6);
    assert("verify"@.len() == 6);
    assert("detect_renames"@.len() == 14);
    assert("max_entries"@.len() == 11);
    assert("id"@.len() == 2);
    assert("path"@[0] != "glob"@[0]);
    assert("path"@[0] != "type"@[0]);
    assert("path"@[0] != "case"@[0]);
    assert("path"@[0] != "word"@[0]);
    assert("path"@[0] != "hash"@[0]);
    assert("path"@[0] != "base"@[0]);
    assert("glob"@[0] != "type"@[0]);
    assert("glob"@[0] != "case"@[0]);
    assert("glob"@[0] != "word"@[0]);
    assert("glob"@[0] != "hash"@[0]);
    assert("glob"@[0] != "base"@[0]);
    assert("type"@[0] != "case"@[0]);
    assert("type"@[0] != "word"@[0]);
    assert("type"@[0] != "hash"@[0]);
    assert("type"@[0] != "base"@[0]);
    assert("type_not"@[0] != "contains"@[0]);
    assert("hidden"@[0] != "invert"@[0]);
    assert("hidden"@[0] != "target"@[0]);
    assert("hidden"@[0] != "verify"@[0]);
    assert("wait_seconds"@[0] != "max_per_file"@[0]);
    assert("pattern"@[0] != "literal"@[0]);
    assert("pattern"@[0] != "context"@[0]);
    assert("literal"@[0] != "context"@[0]);
    assert("case"@[0] != "word"@[0]);
    assert("case"@[0] != "hash"@[0]);
    assert("case"@[0] != "base"@[0]);
    assert("word"@[0] != "hash"@[0]);
    assert("word"@[0] != "base"@[0]);
    assert("max_results"@[4] != "max_entries"@[4]);
    assert("multiline"@[1] != "max_files"@[1]);
    assert("multiline"@[0] != "no_ignore"@[0]);
    assert("multiline"@[0] != "overwrite"@[0]);
    assert("invert"@[0] != "target"@[0]);
    assert("invert"@[0] != "verify"@[0]);
    assert("max_files"@[0] != "no_ignore"@[0]);
    assert("max_files"@[0] != "overwrite"@[0]);
    assert("hash"@[0] != "base"@[0]);
    assert("no_ignore"@[0] != "overwrite"@[0]);
    assert("target"@[0] != "verify"@[0]);
}

/// Whether a property takes a text.
pub open spec fn takes_text(p: Option<JsonTree>) -> bool {
    p matches Some(t) && t.field_text("type"@) == Some("string"@)
}

/// Whether a property takes a list of texts.
pub open spec fn takes_list(p: Option<JsonTree>) -> bool {
    p matches Some(t) && t.field_text("type"@) == Some("array"@) && (t.field("items"@) matches Some(i)
        && i.field_text("type"@) == Some("string"@))
}

/// Whether a property takes a flag that is not set where nothing is said.
pub open spec fn takes_flag(p: Option<JsonTree>) -> bool {
    p matches Some(t) && t.field_text("type"@) == Some("boolean"@) && t.field_bool("default"@)
        == Some(false)
}

/// Whether a property takes a number, from where to where, and which where
/// nothing is said.
pub open spec fn takes_number(
    p: Option<JsonTree>,
    least: u64,
    most: Option<u64>,
    default: Option<u64>,
) -> bool {
    p matches Some(t) && t.field_text("type"@) == Some("integer"@) && t.field_unsigned("minimum"@)
        == Some(least) && t.field_unsigned("maximum"@) == most && t.field_unsigned("default"@)
        == default
}

/// Whether a property takes one of some texts, and which where nothing is said.
pub open spec fn takes_choice(p: Option<JsonTree>, choices: Seq<Seq<char>>, default: Seq<char>) -> bool {
    p matches Some(t) && t.field_text("type"@) == Some("string"@) && t.field_text("default"@)
        == Some(default) && (t.field_list("enum"@) matches Some(items) && items.len()
        == choices.len() && forall|i: int|
        0 <= i < items.len() ==> #[trigger] items[i] == JsonTree::Text(choices[i]))
}

proof fn lemma_takes(d: Seq<char>, least: u64, most: Option<u64>, default: Option<u64>, about: Option<Seq<char>>, choices: Seq<Seq<char>>, usual: Seq<char>)
    ensures
        takes_text(Some(text_property_tree(d))),
        takes_text(Some(text_with_default_tree(usual, d))),
        text_with_default_tree(usual, d).field_text("default"@) == Some(usual),
        takes_list(Some(list_property_tree(d))),
        takes_flag(Some(flag_property_tree(d))),
        takes_number(Some(number_property_tree(least, most, default, about)), least, most, default),
        takes_choice(Some(choice_property_tree(choices, usual, d)), choices, usual),
{
    lemma_schema_keys();
}

proof fn lemma_takes_all()
    ensures
        forall|d: Seq<char>| takes_text(Some(#[trigger] text_property_tree(d))),
        forall|u: Seq<char>, d: Seq<char>| takes_text(Some(#[trigger] text_with_default_tree(u, d))),
        forall|u: Seq<char>, d: Seq<char>| (#[trigger] text_with_default_tree(u, d)).field_text(
            "default"@,
        ) == Some(u),
        forall|d: Seq<char>| takes_list(Some(#[trigger] list_property_tree(d))),
        forall|d: Seq<char>| takes_flag(Some(#[trigger] flag_property_tree(d))),
        forall|l: u64, m: Option<u64>, n: Option<u64>, a: Option<Seq<char>>|
            takes_number(Some(#[trigger] number_property_tree(l, m, n, a)), l, m, n),
        forall|c: Seq<Seq<char>>, u: Seq<char>, d: Seq<char>|
            takes_choice(Some(#[trigger] choice_property_tree(c, u, d)), c, u),
{
    assert forall|d: Seq<char>| takes_text(Some(#[trigger] text_property_tree(d))) by {
        lemma_takes(d, 0, None, None, None, Seq::empty(), d);
    }
    assert forall|u: Seq<char>, d: Seq<char>| takes_text(
        Some(#[trigger] text_with_default_tree(u, d)),
    ) && text_with_default_tree(u, d).field_text("default"@) == Some(u) by {
        lemma_takes(d, 0, None, None, None, Seq::empty(), u);
    }
    assert forall|d: Seq<char>| takes_list(Some(#[trigger] list_property_tree(d))) by {
        lemma_takes(d, 0, None, None, None, Seq::empty(), d);
    }
    assert forall|d: Seq<char>| takes_flag(Some(#[trigger] flag_property_tree(d))) by {
        lemma_takes(d, 0, None, None, None, Seq::empty(), d);
    }
    assert forall|l: u64, m: Option<u64>, n: Option<u64>, a: Option<Seq<char>>| takes_number(
        Some(#[trigger] number_property_tree(l, m, n, a)),
        l,
        m,
        n,
    ) by {
        lemma_takes(Seq::empty(), l, m, n, a, Seq::empty(), Seq::empty());
    }
    assert forall|c: Seq<Seq<char>>, u: Seq<char>, d: Seq<char>| takes_choice(
        Some(#[trigger] choice_property_tree(c, u, d)),
        c,
        u,
    ) by {
        lemma_takes(d, 0, None, None, None, c, u);
    }
}

/// Whether a tool takes properties under their names, and which it cannot do
/// without.
pub open spec fn tool_takes(
    tool: JsonTree,
    name: Seq<char>,
    properties: Map<Seq<char>, JsonTree>,
    required: Seq<Seq<char>>,
) -> bool {
    &&& tool.field_text("name"@) == Some(name)
    &&& tool.field_text("title"@) is Some
    &&& tool.field_text("description"@) is Some
    &&& tool.field("inputSchema"@) matches Some(s) && s.field_text("type"@) == Some("object"@)
        && s.field("properties"@) == Some(JsonTree::Object(properties)) && (s.field_list(
        "required"@,
    ) matches Some(items) && items.len() == required.len() && forall|i: int|
        0 <= i < items.len() ==> #[trigger] items[i] == JsonTree::Text(required[i]))
}

proof fn lemma_tool_takes(
    name: Seq<char>,
    title: Seq<char>,
    about: Seq<char>,
    properties: Map<Seq<char>, JsonTree>,
    required: Seq<Seq<char>>,
)
    ensures
        tool_takes(
            tool_tree(name, title, about, object_schema_tree(JsonTree::Object(properties), required)),
            name,
            properties,
            required,
        ),
{
    lemma_schema_keys();
}

/// Eight tools are announced. A search and a count need a pattern, a diff needs
/// its base, deleting needs a name, and the others need nothing.
pub proof fn law_tools_need_what_they_cannot_do_without()
    ensures
        tool_trees().len() == 8,
        tool_takes(tool_trees()[0], "search"@, search_properties_map(), seq!["pattern"@]),
        tool_takes(tool_trees()[1], "count_matches"@, count_properties_map(), seq!["pattern"@]),
        tool_takes(tool_trees()[2], "search_files"@, files_properties_map(), Seq::empty()),
        tool_takes(tool_trees()[3], "index_status"@, status_properties_map(), Seq::empty()),
        tool_takes(tool_trees()[4], "snapshot_create"@, create_properties_map(), Seq::empty()),
        tool_takes(tool_trees()[5], "snapshot_list"@, Map::empty(), Seq::empty()),
        tool_takes(tool_trees()[6], "snapshot_diff"@, diff_properties_map(), seq!["base"@]),
        tool_takes(tool_trees()[7], "snapshot_delete"@, delete_properties_map(), seq!["id"@]),
{
    assert forall|n: Seq<char>, t: Seq<char>, d: Seq<char>, m: Map<Seq<char>, JsonTree>, r: Seq<Seq<char>>|
        tool_takes(#[trigger] tool_tree(n, t, d, object_schema_tree(JsonTree::Object(m), r)), n, m, r) by {
        lemma_tool_takes(n, t, d, m, r);
    }
    reveal(crate::mcp_tools::listing_properties_map);
    let all = tool_trees();
    assert(all[0] == search_tool_tree() && all[1] == count_tool_tree() && all[2]
        == files_tool_tree() && all[3] == status_tool_tree());
    assert(all[4] == create_tool_tree() && all[5] == listing_tool_tree() && all[6]
        == diff_tool_tree() && all[7] == delete_tool_tree());
}

/// Every query can be narrowed to a path, by globs and types and to hidden files,
/// and waits for the index.
pub proof fn law_queries_can_be_narrowed()
    ensures
        takes_text(JsonTree::Object(scoping_properties_map()).field("path"@)),
        takes_list(JsonTree::Object(scoping_properties_map()).field("glob"@)),
        takes_list(JsonTree::Object(scoping_properties_map()).field("type"@)),
        takes_list(JsonTree::Object(scoping_properties_map()).field("type_not"@)),
        takes_flag(JsonTree::Object(scoping_properties_map()).field("hidden"@)),
        takes_number(JsonTree::Object(scoping_properties_map()).field("wait_seconds"@), 0, Some(600u64), Some(3u64)),
{
    reveal(scoping_properties_map);
    lemma_property_keys();
    lemma_takes_all();
}

/// A query by content takes a pattern, literally or not, as a word or not, with
/// the case that is asked for.
pub proof fn law_queries_by_content_take_a_pattern()
    ensures
        takes_text(JsonTree::Object(matching_properties_map()).field("pattern"@)),
        takes_flag(JsonTree::Object(matching_properties_map()).field("literal"@)),
        takes_flag(JsonTree::Object(matching_properties_map()).field("word"@)),
        takes_flag(JsonTree::Object(matching_properties_map()).field("allow_scan"@)),
        takes_choice(JsonTree::Object(matching_properties_map()).field("case"@), seq!["smart"@, "sensitive"@, "insensitive"@], "smart"@),
{
    reveal(matching_properties_map);
    reveal(scoping_properties_map);
    lemma_property_keys();
    lemma_takes_all();
}

/// A search takes the lines of context, its limits, and whether lines are joined
/// or inverted, with the bounds and defaults that it has.
pub proof fn law_searches_take_their_limits()
    ensures
        takes_number(JsonTree::Object(search_properties_map()).field("context"@), 0, Some(20u64), Some(0u64)),
        takes_number(JsonTree::Object(search_properties_map()).field("max_results"@), 1, Some(1000u64), Some(60u64)),
        takes_number(JsonTree::Object(search_properties_map()).field("max_per_file"@), 1, None, Some(10u64)),
        takes_flag(JsonTree::Object(search_properties_map()).field("multiline"@)),
        takes_flag(JsonTree::Object(search_properties_map()).field("invert"@)),
        takes_text(JsonTree::Object(search_properties_map()).field("pattern"@)),
{
    reveal(search_properties_map);
    reveal(matching_properties_map);
    reveal(scoping_properties_map);
    lemma_property_keys();
    lemma_takes_all();
}

/// Counting takes how many files are listed.
pub proof fn law_counting_takes_its_limit()
    ensures
        takes_number(JsonTree::Object(count_properties_map()).field("max_files"@), 1, Some(1000u64), Some(40u64)),
        takes_text(JsonTree::Object(count_properties_map()).field("pattern"@)),
{
    reveal(count_properties_map);
    reveal(matching_properties_map);
    reveal(scoping_properties_map);
    lemma_property_keys();
    lemma_takes_all();
}

/// Listing files takes a part of the path, and how many are listed.
pub proof fn law_listing_takes_its_limit()
    ensures
        takes_text(JsonTree::Object(files_properties_map()).field("contains"@)),
        takes_number(JsonTree::Object(files_properties_map()).field("max_results"@), 1, Some(5000u64), Some(200u64)),
        takes_text(JsonTree::Object(files_properties_map()).field("path"@)),
{
    reveal(files_properties_map);
    reveal(scoping_properties_map);
    lemma_property_keys();
    lemma_takes_all();
}

/// The status of the index takes how long to wait.
pub proof fn law_status_takes_how_long_to_wait()
    ensures
        takes_number(JsonTree::Object(status_properties_map()).field("wait_seconds"@), 0, Some(600u64), None),
{
    reveal(status_properties_map);
    lemma_property_keys();
    lemma_takes_all();
}

/// Making a snapshot takes a label, and whether content is recorded, ignore rules
/// are left aside, and another is replaced.
pub proof fn law_making_snapshots_takes_a_label()
    ensures
        takes_text(JsonTree::Object(create_properties_map()).field("label"@)),
        takes_flag(JsonTree::Object(create_properties_map()).field("hash"@)),
        takes_flag(JsonTree::Object(create_properties_map()).field("no_ignore"@)),
        takes_flag(JsonTree::Object(create_properties_map()).field("overwrite"@)),
{
    reveal(create_properties_map);
    lemma_property_keys();
    lemma_takes_all();
}

/// A diff takes its base and target, how content is verified, whether renames are
/// looked for, a part of the tree, and how much is listed.
pub proof fn law_diffs_take_two_sides()
    ensures
        takes_text(JsonTree::Object(diff_properties_map()).field("base"@)),
        takes_text(JsonTree::Object(diff_properties_map()).field("target"@)) && JsonTree::Object(diff_properties_map()).field("target"@)->0.field_text("default"@) == Some("live"@),
        takes_choice(JsonTree::Object(diff_properties_map()).field("verify"@), seq!["none"@, "suspect"@, "all"@], "none"@),
        takes_flag(JsonTree::Object(diff_properties_map()).field("detect_renames"@)),
        takes_text(JsonTree::Object(diff_properties_map()).field("path"@)),
        takes_number(JsonTree::Object(diff_properties_map()).field("max_entries"@), 1, Some(5000u64), Some(200u64)),
{
    reveal(diff_properties_map);
    lemma_property_keys();
    lemma_takes_all();
}

/// Deleting a snapshot takes its name.
pub proof fn law_deleting_takes_a_name()
    ensures
        takes_text(JsonTree::Object(delete_properties_map()).field("id"@)),
{
    reveal(delete_properties_map);
    lemma_property_keys();
    lemma_takes_all();
}

} // verus!
