use daily_tasks_management::projects::ProjectManager;
use std::path::Path;
use tempfile::TempDir;

fn names(files: &[&str]) -> Vec<String> {
    files.iter().map(|f| f.to_string()).collect()
}

#[test]
fn test_validate_project_path_valid() {
    let temp_dir = TempDir::new().expect("Failed to create temp dir");
    let path = temp_dir.path().to_str().unwrap();

    let result =
        ProjectManager::validate_project_path(Path::new(path).exists(), Path::new(path).is_dir());
    assert!(result.is_ok());
}

#[test]
fn test_validate_project_path_invalid() {
    let path = Path::new("/nonexistent/path/12345");
    let result = ProjectManager::validate_project_path(path.exists(), path.is_dir());
    assert!(result.is_err());
    assert!(result.unwrap_err().contains("does not exist"));
}

#[test]
fn a_file_is_no_project_directory() {
    assert_eq!(
        ProjectManager::validate_project_path(true, false),
        Err("Path is not a directory".to_string())
    );
    assert_eq!(
        ProjectManager::validate_project_path(false, false),
        Err("Path does not exist".to_string())
    );
    assert_eq!(
        ProjectManager::validate_project_path(false, true),
        Err("Path does not exist".to_string())
    );
    assert_eq!(ProjectManager::validate_project_path(true, true), Ok(()));
}

#[test]
fn test_get_project_info() {
    let (name, project_type) = ProjectManager::get_project_info(
        true,
        Some("my-project".to_string()),
        &names(&["Cargo.toml", "src"]),
    )
    .expect("Failed to get project info");

    assert!(!name.is_empty());
    assert_eq!(name, "my-project");
    assert_eq!(project_type, Some("Rust".to_string()));
}

#[test]
fn project_info_of_a_missing_path_is_an_error() {
    let result = ProjectManager::get_project_info(
        false,
        Some("gone".to_string()),
        &names(&["Cargo.toml"]),
    );
    assert_eq!(result, Err("Path does not exist".to_string()));
}

#[test]
fn project_without_a_name_is_unknown() {
    let result = ProjectManager::get_project_info(true, None, &names(&[]));
    assert_eq!(result, Ok(("Unknown".to_string(), None)));
}

#[test]
fn test_detect_project_type_rust() {
    let project_type = ProjectManager::detect_project_type(&names(&["Cargo.toml"]));
    assert_eq!(project_type, Some("Rust".to_string()));
}

#[test]
fn test_detect_project_type_nodejs() {
    let project_type = ProjectManager::detect_project_type(&names(&["package.json"]));
    assert_eq!(project_type, Some("Node.js".to_string()));
}

#[test]
fn test_detect_project_type_python() {
    let project_type = ProjectManager::detect_project_type(&names(&["requirements.txt"]));
    assert_eq!(project_type, Some("Python".to_string()));
    let project_type = ProjectManager::detect_project_type(&names(&["pyproject.toml"]));
    assert_eq!(project_type, Some("Python".to_string()));
}

#[test]
fn detect_project_type_of_the_other_kinds() {
    assert_eq!(
        ProjectManager::detect_project_type(&names(&["pom.xml"])),
        Some("Java/Maven".to_string())
    );
    assert_eq!(
        ProjectManager::detect_project_type(&names(&["go.mod"])),
        Some("Go".to_string())
    );
    assert_eq!(ProjectManager::detect_project_type(&names(&[])), None);
    assert_eq!(
        ProjectManager::detect_project_type(&names(&["README.md", "cargo.toml", "Cargo.toml.bak"])),
        None
    );
}

#[test]
fn detect_project_type_goes_by_the_order_of_the_markers() {
    let markers = ProjectManager::marker_files();
    assert_eq!(
        markers,
        names(&[
            "package.json",
            "Cargo.toml",
            "requirements.txt",
            "pyproject.toml",
            "pom.xml",
            "go.mod"
        ])
    );
    let kinds = ["Node.js", "Rust", "Python", "Python", "Java/Maven", "Go"];
    for first in 0..markers.len() {
        let mut present: Vec<String> = markers[first..].to_vec();
        present.reverse();
        assert_eq!(
            ProjectManager::detect_project_type(&present),
            Some(kinds[first].to_string())
        );
    }
}

#[test]
fn test_find_env_files() {
    let listing = [".env", ".env.local", "env", ".environment", "a.env", ".en", "", ".ENV"];
    let env_files: Vec<&str> = listing
        .iter()
        .copied()
        .filter(|name| ProjectManager::is_env_file(name))
        .collect();
    assert!(env_files.len() >= 2);
    assert_eq!(env_files, vec![".env", ".env.local", ".environment"]);
}
