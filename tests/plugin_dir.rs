use vim_plugin_metadata::{module_at, plugin_file_order, PluginEntry, VimModule, VimNode, VimParser, VimPlugin};

/// Builds the plugin from a listing of entries below its root, each with
/// its path, whether it is a file, and its contents.
fn plugin_from(listing: &[(&str, bool, &str)]) -> VimPlugin {
    let entries: Vec<PluginEntry> = listing
        .iter()
        .map(|(path, is_file, _)| PluginEntry {
            parts: path.split('/').map(|p| p.to_string()).collect(),
            is_file: *is_file,
        })
        .collect();
    let mut parser = VimParser::new().unwrap();
    let mut content = vec![];
    for i in plugin_file_order(&entries) {
        let module = parser.parse_module_str(listing[i].2).unwrap();
        content.push(module_at(module, &entries[i].parts));
    }
    VimPlugin { content }
}

fn empty_module(path: &str) -> VimModule {
    VimModule { path: Some(path.to_string()), doc: None, nodes: vec![] }
}

#[test]
fn mod_parse_plugin_dir_empty() {
    assert_eq!(plugin_from(&[]), VimPlugin { content: vec![] });
}

#[test]
fn parser_parse_plugin_dir_empty() {
    assert_eq!(plugin_from(&[]), VimPlugin { content: vec![] });
}

fn one_autoload_func() {
    let plugin = plugin_from(&[
        ("autoload", false, ""),
        ("autoload/foo.vim", true, "\nfunc foo#Bar()\n  sleep 1\nendfunc\n"),
    ]);
    assert_eq!(
        plugin,
        VimPlugin {
            content: vec![VimModule {
                path: Some("autoload/foo.vim".into()),
                doc: None,
                nodes: vec![VimNode::Function {
                    name: "foo#Bar".into(),
                    args: vec![],
                    modifiers: vec![],
                    doc: None
                }]
            }],
        }
    );
}

#[test]
fn mod_parse_plugin_dir_one_autoload_func() {
    one_autoload_func();
}

#[test]
fn parser_parse_plugin_dir_one_autoload_func() {
    one_autoload_func();
}

#[test]
fn mod_parse_plugin_dir_various_subdirs() {
    let files = [
        // Ignored paths.
        "ignored_not_in_subdir.vim",
        "after/after/x.vim",
        "plugin/subdir/x.vim",
        // Normal paths.
        "menu.vim",
        "after/menu.vim",
        "autoload/x.vim",
        "autoload/subdir/x.vim",
        "compiler/x.vim",
        "instant/x.vim",
        "plugin/x.vim",
        "after/plugin/x.vim",
        "colors/x.vim",
        "spell/x.vim",
    ];
    let expected = VimPlugin {
        content: [
            "menu.vim",
            "plugin/x.vim",
            "instant/x.vim",
            "autoload/x.vim",
            "autoload/subdir/x.vim",
            "compiler/x.vim",
            "spell/x.vim",
            "colors/x.vim",
            "after/menu.vim",
            "after/plugin/x.vim",
        ]
        .into_iter()
        .map(empty_module)
        .collect(),
    };
    let listing: Vec<(&str, bool, &str)> = files.iter().map(|f| (*f, true, "")).collect();
    assert_eq!(plugin_from(&listing), expected);
    // The order does not depend on the order of the listing.
    let reversed: Vec<(&str, bool, &str)> = listing.iter().rev().cloned().collect();
    assert_eq!(plugin_from(&reversed), expected);
}

#[test]
fn parser_parse_plugin_dir_various_subdirs() {
    let listing: Vec<(&str, bool, &str)> = [
        "ignored_not_in_subdir.vim",
        "autoload/x.vim",
        "instant/x.vim",
        "plugin/x.vim",
        "colors/x.vim",
        "spell/x.vim",
    ]
    .iter()
    .map(|f| (*f, true, ""))
    .collect();
    assert_eq!(
        plugin_from(&listing),
        VimPlugin {
            content: ["plugin/x.vim", "instant/x.vim", "autoload/x.vim", "spell/x.vim", "colors/x.vim"]
                .into_iter()
                .map(empty_module)
                .collect(),
        }
    );
}

#[test]
fn overlay_sections_trail_primary_sections() {
    let files = [
        "after/syntax/x.vim",
        "syntax/x.vim",
        "after/plugin/x.vim",
        "instant/x.vim",
        "after/autoload/x.vim",
        "autoload/x.vim",
        "after/instant/x.vim",
        "plugin/x.vim",
    ];
    let expected: Vec<VimModule> = [
        "plugin/x.vim",
        "instant/x.vim",
        "autoload/x.vim",
        "syntax/x.vim",
        "after/plugin/x.vim",
        "after/instant/x.vim",
        "after/autoload/x.vim",
        "after/syntax/x.vim",
    ]
    .into_iter()
    .map(empty_module)
    .collect();
    let listing: Vec<(&str, bool, &str)> = files.iter().map(|f| (*f, true, "")).collect();
    assert_eq!(plugin_from(&listing).content, expected);
    let reversed: Vec<(&str, bool, &str)> = listing.iter().rev().cloned().collect();
    assert_eq!(plugin_from(&reversed).content, expected);
}

#[test]
fn unloaded_paths_never_appear() {
    let listing = [
        ("syntax/a/b.vim", true, ""),
        ("foo/x.vim", true, ""),
        ("after/syntax/a/b.vim", true, ""),
        ("after/foo/x.vim", true, ""),
        ("plugin/notes.txt", true, ""),
        ("plugin/dir.vim", false, ""),
        ("autoload/deep/er/x.vim", true, ""),
    ];
    assert_eq!(
        plugin_from(&listing).content,
        vec![empty_module("autoload/deep/er/x.vim")]
    );
}

#[test]
fn equal_keys_are_ordered_by_path() {
    let forward = [("autoload/a.vim", true, ""), ("autoload/b.vim", true, "")];
    let backward = [("autoload/b.vim", true, ""), ("autoload/a.vim", true, "")];
    let expected = vec![empty_module("autoload/a.vim"), empty_module("autoload/b.vim")];
    assert_eq!(plugin_from(&forward).content, expected);
    assert_eq!(plugin_from(&backward).content, expected);
}

