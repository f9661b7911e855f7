use notebook_editor::document::OpenError;
use notebook_editor::id_map::IdMap;
use notebook_editor::item::{ItemError, NotebookItem, ProjectPath};

const NAMED: &str = "{\"metadata\": {\"kernelspec\": {\"display_name\": \"K\", \"name\": \"k\", \
    \"language\": \"julia\"}}, \"nbformat\": 4, \"nbformat_minor\": 5, \"cells\": []}";

fn path(extension: Option<&str>) -> ProjectPath {
    ProjectPath {
        worktree_id: 2,
        path: "a/b.ipynb".to_string(),
        file_name: Some("b.ipynb".to_string()),
        extension: extension.map(|extension| extension.to_string()),
    }
}

fn try_open(
    extension: Option<&str>,
    abs_path: Option<&str>,
    content: &str,
    entry: Option<u64>,
) -> Option<Result<NotebookItem, ItemError>> {
    let abs_path = abs_path.map(|path| path.to_string());
    NotebookItem::try_open(path(extension), abs_path, content, entry)
}

#[test]
fn only_notebook_files_are_opened() {
    assert!(try_open(None, Some("/a/b"), "", Some(1)).is_none());
    assert!(try_open(Some("py"), Some("/a/b.py"), "", Some(1)).is_none());
    assert!(try_open(Some("IPYNB"), Some("/a/b.IPYNB"), "", Some(1)).is_none());
    assert!(try_open(Some("ipynb"), Some("/a/b.ipynb"), "", Some(1)).is_some());
}

#[test]
fn an_opened_item_knows_its_file() {
    let item = match try_open(Some("ipynb"), Some("/a/b.ipynb"), NAMED, Some(77)) {
        Some(Ok(item)) => item,
        _ => panic!("the notebook opens"),
    };
    assert_eq!(item.path, "/a/b.ipynb");
    assert_eq!(item.entry_id(), Some(77));
    assert_eq!(item.project_path().map(|path| path.path), Some("a/b.ipynb".to_string()));
    assert!(!item.is_dirty());
    assert!(!item.changed);
}

#[test]
fn what_is_missing_is_an_error() {
    let result = try_open(Some("ipynb"), None, NAMED, Some(1));
    assert!(matches!(result, Some(Err(ItemError::NoAbsolutePath))));
    let result = try_open(Some("ipynb"), Some("/a/b.ipynb"), NAMED, None);
    assert!(matches!(result, Some(Err(ItemError::EntryNotFound))));
    // What the file holds comes before the entry.
    let result = try_open(Some("ipynb"), Some("/a/b.ipynb"), "nothing", None);
    assert!(matches!(result, Some(Err(ItemError::Unreadable(OpenError::InvalidJson(_))))));
}

#[test]
fn the_language_comes_from_the_kernel() {
    let mut item = match try_open(Some("ipynb"), Some("/a/b.ipynb"), NAMED, Some(1)) {
        Some(Ok(item)) => item,
        _ => panic!("the notebook opens"),
    };
    assert_eq!(item.language_name(), Some("julia".to_string()));
    assert_eq!(item.notebook_language(Some(3)), Some(3));
    assert_eq!(item.notebook_language(None), None);
    if let Some(spec) = &mut item.notebook.metadata.kernelspec {
        spec.language = None;
    }
    assert_eq!(item.language_name(), None);
    assert_eq!(item.notebook_language(Some(3)), None);
    item.notebook.metadata.kernelspec = None;
    assert_eq!(item.language_name(), None);
}

#[test]
fn a_map_has_one_value_for_an_identifier() {
    let mut map: IdMap<String> = IdMap::new();
    let key = |text: &str| text.to_string();
    map.insert(key("a"), key("x"));
    map.insert(key("b"), key("y"));
    map.insert(key("a"), key("z"));
    assert_eq!(map.len(), 2);
    assert_eq!(map.get(&key("a")), Some(&key("z")));
    if let Some(value) = map.get_mut(&key("b")) {
        value.push('!');
    }
    assert_eq!(map.get(&key("b")), Some(&key("y!")));
    assert!(map.get_mut(&key("c")).is_none());
    assert_eq!(map.remove(&key("b")), Some(key("y!")));
    assert_eq!(map.remove(&key("b")), None);
    map.insert(key("c"), key("z"));
    map.insert(key("d"), key("w"));
    map.remove_value(&key("z"));
    assert_eq!(map.len(), 1);
    assert_eq!(map.get(&key("d")), Some(&key("w")));
    map.clear();
    assert_eq!(map.len(), 0);
}
