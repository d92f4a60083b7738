use lokcaldev::drivers::PhpManager;

const INI: &str = "; comment\n[PHP]\nengine = On\nmemory_limit=128M\n\n[Date]\ndate.timezone = UTC\nnot a directive\n;extension=intl\n";

#[test]
fn ini_directives_with_sections() {
    let ds = PhpManager::parse_ini(INI);
    assert_eq!(ds.len(), 3);
    assert_eq!((ds[0].key.as_str(), ds[0].value.as_str(), ds[0].section.as_str()), ("engine", "On", "PHP"));
    assert_eq!((ds[1].key.as_str(), ds[1].value.as_str()), ("memory_limit", "128M"));
    assert_eq!((ds[2].key.as_str(), ds[2].section.as_str()), ("date.timezone", "Date"));
    let top = PhpManager::parse_ini("a = b\n");
    assert_eq!(top[0].section, "PHP");
    let odd = PhpManager::parse_ini("k = v = w\n");
    assert_eq!(odd[0].value, "v = w");
}

#[test]
fn ini_directive_is_replaced_or_appended() {
    let out = PhpManager::set_ini_directive(INI, "memory_limit", "256M");
    assert!(out.contains("\nmemory_limit = 256M\n"));
    assert!(!out.contains("128M"));
    let out = PhpManager::set_ini_directive(INI, "upload_max_filesize", "64M");
    assert!(out.ends_with(";extension=intl\nupload_max_filesize = 64M\n"));
    assert_eq!(PhpManager::set_ini_directive("", "a", "b"), "a = b\n");
}

#[test]
fn extension_switch() {
    let on = PhpManager::toggle_extension(INI, "intl", true);
    assert!(on.contains("\nextension=intl\n"));
    assert!(!on.contains(";extension=intl"));
    let off = PhpManager::toggle_extension(&on, "intl", false);
    assert!(off.contains("\n;extension=intl\n"));
    let added = PhpManager::toggle_extension("x\n", "gd", true);
    assert_eq!(added, "x\nextension=gd\n");
}

#[test]
fn extensions_listed_sorted_with_zend_marked() {
    let out = "[PHP Modules]\nzlib\nCore\ncurl\n\n[Zend Modules]\nZend OPcache\n";
    let es = PhpManager::parse_extensions(out);
    let names: Vec<&str> = es.iter().map(|e| e.name.as_str()).collect();
    assert_eq!(names, vec!["Core", "Zend OPcache", "curl", "zlib"]);
    assert!(es.iter().all(|e| e.enabled));
    assert!(es[1].builtin);
    assert!(!es[0].builtin);
}
