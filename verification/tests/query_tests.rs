use treesync::repology::{filter_packages, status_display, Package, QueryArgs};
use treesync::repology_pages::{filter_pages, Package as PagedPackage};
use treesync::text::uppercase_all;
use treesync::todo::{add_todo, create_todo, delete_todo, rejection_reply, update_todo, Todo};

fn pkg(repo: &str, version: &str, status: Option<&str>) -> Package {
    Package {
        repo: repo.to_string(),
        version: version.to_string(),
        status: status.map(|s| s.to_string()),
    }
}

#[test]
fn request_url_names_the_project_endpoint() {
    let args = QueryArgs { package_name: "ripgrep".to_string(), distro: None, timeout: 10 };
    assert_eq!(args.request_url(), "https://repology.org/api/v1/project/ripgrep");
}

#[test]
fn no_filter_keeps_every_row() {
    let rows = vec![pkg("arch", "1.0", None), pkg("debian", "0.9", Some("outdated"))];
    let kept = filter_packages(&rows, &None);
    assert_eq!(kept.len(), 2);
    assert_eq!(kept[0].repo, "arch");
    assert_eq!(kept[1].repo, "debian");
}

#[test]
fn filter_is_case_insensitive_containment() {
    let rows = vec![
        pkg("Arch", "1.0", None),
        pkg("debian_stable", "0.9", None),
        pkg("ARCH_community", "1.1", None),
        pkg("fedora", "1.2", None),
    ];
    let kept = filter_packages(&rows, &Some("arch".to_string()));
    let repos: Vec<&str> = kept.iter().map(|p| p.repo.as_str()).collect();
    assert_eq!(repos, vec!["Arch", "ARCH_community"]);
}

#[test]
fn filter_can_empty_the_table() {
    let rows = vec![pkg("arch", "1.0", None)];
    let kept = filter_packages(&rows, &Some("suse".to_string()));
    assert!(kept.is_empty());
}

#[test]
fn absent_status_reads_as_not_available() {
    assert_eq!(status_display(&Some("newest".to_string())), "newest");
    assert_eq!(status_display(&None), "N/A");
}

#[test]
fn paged_row_defaults_both_optional_cells() {
    let p = PagedPackage {
        repo: "nix".to_string(),
        version: "2.0".to_string(),
        status: None,
        repopage: Some("https://example.org/nix".to_string()),
    };
    let (repo, version, status, page) = p.table_row();
    assert_eq!(repo, "nix");
    assert_eq!(version, "2.0");
    assert_eq!(status, "N/A");
    assert_eq!(page, "https://example.org/nix");
}

fn paged(repo: &str) -> PagedPackage {
    PagedPackage {
        repo: repo.to_string(),
        version: "1".to_string(),
        status: None,
        repopage: None,
    }
}

#[test]
fn paged_filter_applies_the_same_containment_rule() {
    let rows = vec![paged("Arch"), paged("debian"), paged("arch_extra")];
    let kept = filter_pages(&rows, &Some("ARCH".to_string()));
    let repos: Vec<&str> = kept.iter().map(|p| p.repo.as_str()).collect();
    assert_eq!(repos, vec!["Arch", "arch_extra"]);
    let all = filter_pages(&rows, &None);
    assert_eq!(all.len(), 3);
}

#[test]
fn uppercasing_keeps_order() {
    let items = vec!["hello".to_string(), "World".to_string()];
    assert_eq!(uppercase_all(&items), vec!["HELLO".to_string(), "WORLD".to_string()]);
}

#[test]
fn todos_are_created_with_fresh_identifiers() {
    let mut todos: Vec<Todo> = Vec::new();
    let first = create_todo(&mut todos, "write tests".to_string(), false);
    let second = create_todo(&mut todos, "run them".to_string(), true);
    assert_eq!(todos.len(), 2);
    assert_eq!(first.id.chars().count(), 36);
    assert_eq!(second.id.chars().count(), 36);
    assert_ne!(first.id, second.id);
    assert_eq!(todos[0].title, "write tests");
    assert!(todos[1].completed);
}

#[test]
fn update_hits_the_first_matching_id_only() {
    let mut todos: Vec<Todo> = Vec::new();
    add_todo(&mut todos, "id-1".to_string(), "one".to_string(), false);
    add_todo(&mut todos, "id-2".to_string(), "two".to_string(), false);
    let updated = update_todo(&mut todos, &"id-2".to_string(), "two, done".to_string(), true);
    let updated = updated.expect("the identifier exists");
    assert_eq!(updated.id, "id-2");
    assert!(updated.completed);
    assert_eq!(todos[1].title, "two, done");
    assert_eq!(todos[0].title, "one");

    let missing = update_todo(&mut todos, &"id-9".to_string(), "none".to_string(), false);
    assert!(missing.is_none());
    assert_eq!(todos.len(), 2);
}

#[test]
fn delete_removes_exactly_the_named_todo() {
    let mut todos: Vec<Todo> = Vec::new();
    add_todo(&mut todos, "id-1".to_string(), "one".to_string(), false);
    add_todo(&mut todos, "id-2".to_string(), "two".to_string(), false);
    assert!(delete_todo(&mut todos, &"id-1".to_string()));
    assert_eq!(todos.len(), 1);
    assert_eq!(todos[0].id, "id-2");
    assert!(!delete_todo(&mut todos, &"id-1".to_string()));
    assert_eq!(todos.len(), 1);
}

#[test]
fn rejections_answer_with_the_right_status() {
    let (code, body) = rejection_reply(true);
    assert_eq!(code, 404);
    assert_eq!(body, "Not found");
    let (code, body) = rejection_reply(false);
    assert_eq!(code, 400);
    assert_eq!(body, "Bad request");
}
