use voidlink::folders::{candidate_folders, discover_folders};
use voidlink::java::{
    adoptium_release_url, detect_architecture, detect_vendor, extract_version_string,
    get_adoptium_arch, get_adoptium_os, java_executable_name, order_installations,
    parse_java_version_output, parse_major_version, release_from_fields, unique_paths,
    validate_and_create_installation, validate_java_path, HostArch, HostOs, JavaInstallation,
    ReleaseFields,
};
use voidlink::numbers::parse_u32;
use voidlink::order::text_at_or_before;
use voidlink::text::chars_of;

fn strings(v: &[&str]) -> Vec<String> {
    v.iter().map(|s| s.to_string()).collect()
}

const TEMURIN: &str = "openjdk version \"17.0.9\" 2023-10-17\nOpenJDK Runtime Environment Temurin-17.0.9+9 (build 17.0.9+9)\nOpenJDK 64-Bit Server VM Temurin-17.0.9+9 (build 17.0.9+9, mixed mode, sharing) amd64";

#[test]
fn folders_found_in_fixed_order_then_worlds() {
    let entries = strings(&["server.properties", "world", "plugins", "world_old", "logs", "mods"]);
    let dirs = strings(&["world", "plugins", "world_old", "logs", "mods", "world_backup2"]);
    assert_eq!(
        discover_folders(&entries, &dirs),
        vec!["world", "plugins", "mods", "logs", "server.properties", "world_old", "world_backup2"]
    );
}

#[test]
fn no_folders_in_empty_directory() {
    assert!(discover_folders(&vec![], &vec![]).is_empty());
    assert_eq!(candidate_folders().len(), 14);
}

#[test]
fn version_string_between_quotes() {
    assert_eq!(extract_version_string("java version \"1.8.0_392\""), Some("1.8.0_392".to_string()));
    assert_eq!(extract_version_string("no quotes"), None);
    assert_eq!(extract_version_string("one \" only"), None);
    assert_eq!(extract_version_string("\"\""), Some(String::new()));
}

#[test]
fn major_versions() {
    assert_eq!(parse_major_version("17.0.9"), 17);
    assert_eq!(parse_major_version("1.8.0_392"), 8);
    assert_eq!(parse_major_version("21"), 21);
    assert_eq!(parse_major_version("1"), 1);
    assert_eq!(parse_major_version("1.x"), 1);
    assert_eq!(parse_major_version("abc"), 0);
    assert_eq!(parse_major_version(""), 0);
}

#[test]
fn u32_reading() {
    assert_eq!(parse_u32(&chars_of("4294967295")), Some(u32::MAX));
    assert_eq!(parse_u32(&chars_of("4294967296")), None);
    assert_eq!(parse_u32(&chars_of("+12")), Some(12));
    assert_eq!(parse_u32(&chars_of("+")), None);
    assert_eq!(parse_u32(&chars_of("")), None);
    assert_eq!(parse_u32(&chars_of("1a")), None);
}

#[test]
fn vendors_and_architectures() {
    assert_eq!(detect_vendor(TEMURIN), Some("Eclipse Temurin".to_string()));
    assert_eq!(detect_vendor("OpenJDK 64-Bit Zulu"), Some("Azul Zulu".to_string()));
    assert_eq!(detect_vendor("Java(TM) SE Runtime"), Some("Oracle".to_string()));
    assert_eq!(detect_vendor("openjdk version"), Some("OpenJDK".to_string()));
    assert_eq!(detect_vendor("something else"), None);
    assert_eq!(detect_architecture(TEMURIN), Some("x86_64".to_string()));
    assert_eq!(detect_architecture("ARM64 build"), Some("aarch64".to_string()));
    assert_eq!(detect_architecture("i686"), Some("x86".to_string()));
    assert_eq!(detect_architecture("sparc"), None);
}

#[test]
fn version_output_parses() {
    let info = parse_java_version_output(TEMURIN).unwrap();
    assert_eq!(info.version, "17.0.9");
    assert_eq!(info.major, 17);
    assert_eq!(info.vendor.as_deref(), Some("Eclipse Temurin"));
    assert_eq!(info.arch.as_deref(), Some("x86_64"));
    let crlf = parse_java_version_output("java version \"1.8.0\"\r\nJava(TM)").unwrap();
    assert_eq!(crlf.major, 8);
    assert_eq!(parse_java_version_output("garbage").err(), Some("Could not parse Java version".to_string()));
    assert!(parse_java_version_output("").is_err());
}

#[test]
fn validation_outcomes() {
    let v = validate_java_path(false, Ok(TEMURIN.to_string()));
    assert!(!v.is_valid);
    assert_eq!(v.error.as_deref(), Some("Path does not exist"));
    let v = validate_java_path(true, Err("Not a file".to_string()));
    assert!(!v.is_valid);
    assert_eq!(v.error.as_deref(), Some("Not a file"));
    let v = validate_java_path(true, Ok(TEMURIN.to_string()));
    assert!(v.is_valid);
    assert_eq!(v.major, Some(17));
    assert!(v.error.is_none());
    let v = validate_java_path(true, Ok("nothing".to_string()));
    assert_eq!(v.error.as_deref(), Some("Could not parse Java version"));
}

#[test]
fn installations_from_probes() {
    let i = validate_and_create_installation("/usr/bin/java", Ok(TEMURIN.to_string())).unwrap();
    assert_eq!(i.path, "/usr/bin/java");
    assert!(i.is_valid);
    assert_eq!(i.major, Some(17));
    assert!(validate_and_create_installation("/x", Err("boom".to_string())).is_none());
    assert!(validate_and_create_installation("/x", Ok("junk".to_string())).is_none());
}

fn inst(path: &str, major: Option<u32>) -> JavaInstallation {
    JavaInstallation { path: path.to_string(), version: None, major, vendor: None, arch: None, is_valid: true }
}

#[test]
fn installations_ordered_newest_first() {
    let found = vec![
        inst("/a", Some(8)),
        inst("/b", Some(21)),
        inst("/z", None),
        inst("/c", Some(17)),
        inst("/d", Some(21)),
        inst("/y", None),
    ];
    let paths: Vec<String> = order_installations(found).into_iter().map(|i| i.path).collect();
    assert_eq!(paths, vec!["/y", "/z", "/b", "/d", "/c", "/a"]);
}

#[test]
fn candidate_paths_deduplicated() {
    let c = strings(&["/usr/bin/java", "/opt/j/bin/java", "/usr/bin/java"]);
    assert_eq!(unique_paths(&c), vec!["/usr/bin/java", "/opt/j/bin/java"]);
}

#[test]
fn host_names() {
    assert_eq!(java_executable_name(HostOs::Windows), "java.exe");
    assert_eq!(java_executable_name(HostOs::Linux), "java");
    assert_eq!(get_adoptium_os(HostOs::Mac), "mac");
    assert_eq!(get_adoptium_arch(HostArch::X86), "x32");
    assert_eq!(
        adoptium_release_url(17, HostOs::Linux, HostArch::X64),
        "https://api.adoptium.net/v3/assets/latest/17/hotspot?architecture=x64&image_type=jdk&os=linux&vendor=eclipse"
    );
}

#[test]
fn release_fields() {
    let ok = release_from_fields(
        21,
        ReleaseFields {
            semver: None,
            link: Some("https://x/jdk.zip".to_string()),
            name: Some("jdk.zip".to_string()),
            size: None,
            checksum: Some("ab".to_string()),
        },
    )
    .unwrap();
    assert_eq!(ok.version, "unknown");
    assert_eq!(ok.size, 0);
    assert_eq!(ok.major, 21);
    assert_eq!(ok.filename, "jdk.zip");
    let no_link = release_from_fields(21, ReleaseFields { semver: None, link: None, name: None, size: None, checksum: None });
    assert_eq!(no_link.err(), Some("No download link".to_string()));
    let no_name = release_from_fields(21, ReleaseFields { semver: None, link: Some("l".to_string()), name: None, size: None, checksum: None });
    assert_eq!(no_name.err(), Some("No filename".to_string()));
}

#[test]
fn text_order_is_code_point_order() {
    assert!(text_at_or_before("2024-01-01", "2024-01-02"));
    assert!(text_at_or_before("abc", "abc"));
    assert!(text_at_or_before("ab", "abc"));
    assert!(!text_at_or_before("b", "abc"));
    assert!(text_at_or_before("", ""));
}
