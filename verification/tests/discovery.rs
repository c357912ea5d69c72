use plugin_manager::discovery::{in_load_order, is_plugin_file, precedes};
use plugin_manager::{ErrorKind, Plugin, PluginManager};
use std::cell::RefCell;
use std::rc::Rc;

type Journal = Rc<RefCell<Vec<String>>>;

type Opened = Result<libloading::Library, libloading::Error>;

struct Named {
    name: String,
    journal: Journal,
}

impl Plugin for Named {
    fn name(&self) -> String {
        self.name.clone()
    }

    fn on_plugin_load(&self) {
        self.journal.borrow_mut().push(format!("load {}", self.name));
    }

    fn on_plugin_unload(&self) {
        self.journal.borrow_mut().push(format!("unload {}", self.name));
    }
}

fn entries(names: &[&str]) -> Vec<String> {
    names.iter().map(|name| name.to_string()).collect()
}

fn text(lines: &[&str]) -> Vec<String> {
    lines.iter().map(|line| line.to_string()).collect()
}

/// Loads `listing` into a fresh registry, in lexicographic order if `sort` is
/// set and in the order of the listing if not. The loader maps every file but
/// those whose name contains "broken"; the factory names each plugin after
/// the file that was opened last.
fn load_all(
    listing: &[&str],
    sort: bool,
    journal: &Journal,
) -> (PluginManager<Named>, Option<ErrorKind>) {
    let opened_last = RefCell::new(String::new());
    let open = |name: &String| -> Opened {
        journal.borrow_mut().push(format!("open {}", name));
        if name.contains("broken") {
            return Err(libloading::Error::DlOpenUnknown);
        }
        *opened_last.borrow_mut() = name.clone();
        Ok(libloading::os::unix::Library::this().into())
    };
    let create = |_library: &libloading::Library| -> Result<Named, libloading::Error> {
        if opened_last.borrow().contains("plain") {
            return Err(libloading::Error::DlSymUnknown);
        }
        Ok(Named { name: opened_last.borrow().clone(), journal: journal.clone() })
    };
    let mut manager = PluginManager::new();
    let verdict = if sort {
        manager.load_plugins(entries(listing), "so", &open, &create)
    } else {
        manager.load_in_order(&entries(listing), "so", &open, &create)
    };
    (manager, verdict.err().map(|error| error.kind()))
}

fn names(manager: &PluginManager<Named>) -> Vec<String> {
    manager.plugins.iter().map(|plugin| plugin.name()).collect()
}

#[test]
fn a_plugin_file_is_a_stem_a_dot_and_the_extension() {
    assert!(is_plugin_file("liblogger.so", "so"));
    assert!(is_plugin_file("a.so", "so"));
    assert!(is_plugin_file("plugins/liblogger.so", "so"));
    assert!(is_plugin_file("logger.dll", "dll"));
    assert!(is_plugin_file("liblogger.dylib", "dylib"));
    assert!(is_plugin_file("größe.so", "so"));
}

#[test]
fn other_names_are_no_plugin_files() {
    assert!(!is_plugin_file("liblogger.dll", "so"));
    assert!(!is_plugin_file("liblogger.so.1", "so"));
    assert!(!is_plugin_file("liblogger.SO", "so"));
    assert!(!is_plugin_file("libloggerso", "so"));
    assert!(!is_plugin_file("liblogger.so", "o"));
    assert!(!is_plugin_file(".so", "so"));
    assert!(!is_plugin_file("so", "so"));
    assert!(!is_plugin_file("o", "so"));
    assert!(!is_plugin_file("", "so"));
    assert!(!is_plugin_file("readme.txt", "so"));
}

#[test]
fn an_empty_extension_asks_for_a_trailing_dot() {
    assert!(is_plugin_file("liblogger.", ""));
    assert!(!is_plugin_file("liblogger", ""));
    assert!(!is_plugin_file(".", ""));
    assert!(!is_plugin_file("", ""));
}

#[test]
fn names_are_ordered_letter_by_letter() {
    assert!(precedes("liba.so", "libb.so"));
    assert!(!precedes("libb.so", "liba.so"));
    assert!(precedes("lib", "liba"));
    assert!(!precedes("liba", "lib"));
    assert!(precedes("", "a"));
    assert!(!precedes("a", ""));
    assert!(!precedes("", ""));
    assert!(!precedes("liba.so", "liba.so"));
    assert!(precedes("Z", "a"));
    assert!(precedes("lib10.so", "lib9.so"));
    assert!(precedes("z", "ä"));
    assert!(!precedes("ä", "z"));
}

#[test]
fn the_load_order_is_lexicographic_and_keeps_every_entry() {
    let listing = in_load_order(entries(&["libd.so", "liba.so", "notes.txt", "liba.so", "lib"]));
    assert_eq!(listing, text(&["lib", "liba.so", "liba.so", "libd.so", "notes.txt"]));
    assert_eq!(in_load_order(Vec::new()), Vec::<String>::new());
    assert_eq!(in_load_order(entries(&["only"])), text(&["only"]));
    assert_eq!(in_load_order(entries(&["b", "a"])), text(&["a", "b"]));
    assert_eq!(in_load_order(entries(&["a", "b"])), text(&["a", "b"]));
    let mut expected = entries(&["q", "Q", "", "qq", "ä", "a.so", "A.so", "10", "9"]);
    let listing = in_load_order(expected.clone());
    expected.sort();
    assert_eq!(listing, expected);
}

#[test]
fn a_directory_is_loaded_in_lexicographic_order() {
    let journal: Journal = Rc::new(RefCell::new(Vec::new()));
    let (mut manager, failed) =
        load_all(&["libd.so", "liba.so", "notes.txt", "libc.so.1", "libb.so"], true, &journal);
    assert_eq!(failed, None);
    assert_eq!(names(&manager), text(&["liba.so", "libb.so", "libd.so"]));
    assert_eq!(manager.loaded_libraries.len(), 3);
    assert_eq!(
        *journal.borrow(),
        text(&[
            "open liba.so",
            "load liba.so",
            "open libb.so",
            "load libb.so",
            "open libd.so",
            "load libd.so",
        ])
    );
    manager.unload();
}

#[test]
fn a_directory_load_ends_at_the_first_failure_in_lexicographic_order() {
    let journal: Journal = Rc::new(RefCell::new(Vec::new()));
    let (mut manager, failed) =
        load_all(&["libz.so", "libbroken.so", "liba.so", "libplain.so"], true, &journal);
    assert_eq!(failed, Some(ErrorKind::Load));
    assert_eq!(names(&manager), text(&["liba.so"]));
    assert_eq!(manager.loaded_libraries.len(), 1);
    assert_eq!(*journal.borrow(), text(&["open liba.so", "load liba.so", "open libbroken.so"]));
    manager.unload();
}

#[test]
fn a_batch_loads_the_plugin_files_in_the_order_of_the_listing() {
    let journal: Journal = Rc::new(RefCell::new(Vec::new()));
    let (mut manager, failed) =
        load_all(&["libd.so", "notes.txt", "libb.so", "libc.so.1", "liba.so"], false, &journal);
    assert_eq!(failed, None);
    assert_eq!(names(&manager), text(&["libd.so", "libb.so", "liba.so"]));
    assert_eq!(manager.loaded_libraries.len(), 3);
    assert_eq!(
        *journal.borrow(),
        text(&[
            "open libd.so",
            "load libd.so",
            "open libb.so",
            "load libb.so",
            "open liba.so",
            "load liba.so",
        ])
    );
    manager.unload();
}

#[test]
fn a_batch_of_nothing_succeeds() {
    let journal: Journal = Rc::new(RefCell::new(Vec::new()));
    for sort in [false, true] {
        let (manager, failed) = load_all(&[], sort, &journal);
        assert_eq!(failed, None);
        assert_eq!(manager.plugins.len(), 0);
        assert_eq!(manager.loaded_libraries.len(), 0);
        let (manager, failed) = load_all(&["notes.txt", "liba.dll"], sort, &journal);
        assert_eq!(failed, None);
        assert_eq!(manager.plugins.len(), 0);
        assert_eq!(manager.loaded_libraries.len(), 0);
    }
    assert!(journal.borrow().is_empty());
}

#[test]
fn a_batch_ends_at_the_first_file_that_cannot_be_mapped() {
    let journal: Journal = Rc::new(RefCell::new(Vec::new()));
    let (mut manager, failed) = load_all(&["libc.so", "libbroken.so", "liba.so"], false, &journal);
    assert_eq!(failed, Some(ErrorKind::Load));
    assert_eq!(names(&manager), text(&["libc.so"]));
    assert_eq!(manager.loaded_libraries.len(), 1);
    assert_eq!(*journal.borrow(), text(&["open libc.so", "load libc.so", "open libbroken.so"]));
    manager.unload();
}

#[test]
fn a_batch_ends_at_the_first_library_without_the_factory() {
    let journal: Journal = Rc::new(RefCell::new(Vec::new()));
    let (mut manager, failed) = load_all(&["libc.so", "libplain.so", "liba.so"], false, &journal);
    assert_eq!(failed, Some(ErrorKind::SymbolResolution));
    assert_eq!(names(&manager), text(&["libc.so"]));
    assert_eq!(manager.loaded_libraries.len(), 2);
    assert_eq!(*journal.borrow(), text(&["open libc.so", "load libc.so", "open libplain.so"]));
    manager.unload();
    assert_eq!(manager.loaded_libraries.len(), 0);
}
