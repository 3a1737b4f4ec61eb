use dfiles::aspects::{ContainerAspect, DockerfileSnippet};
use dfiles::containermanager::{ContainerManager, DEBIAN_BASE, DEBIAN_LANGUAGE_PACKS, DEBIAN_TOOLS};
use dfiles::recipe::{compose, ImageRecipe};

fn snippet(order: u8, content: &str) -> DockerfileSnippet {
    DockerfileSnippet { order, content: String::from(content) }
}

fn aspect_with(name: &str, snippets: Vec<DockerfileSnippet>) -> ContainerAspect {
    let mut aspect = ContainerAspect::new(String::from(name));
    aspect.dockerfile_snippets = snippets;
    aspect
}

#[test]
fn two_aspects_same_and_lower_priority() {
    let text = compose(&vec![snippet(5, "X"), snippet(5, "Y"), snippet(1, "Z")]);
    assert_eq!(text, "Z\n\nX\nY\n\n");
}

#[test]
fn recipe_of_two_aspects_under_the_manager() {
    let a = aspect_with("a", vec![snippet(5, "X")]);
    let b = aspect_with("b", vec![snippet(5, "Y"), snippet(1, "Z")]);
    let manager = ContainerManager::default_debian(
        String::from("app"),
        vec![String::from("app:v1")],
        Vec::new(),
        vec![a, b],
        Vec::new(),
    );
    let expected = format!(
        "{}\n\nZ\n\n{}\n\n{}\n\nX\nY\n\n",
        DEBIAN_BASE, DEBIAN_TOOLS, DEBIAN_LANGUAGE_PACKS
    );
    assert_eq!(manager.dockerfile(), expected);
}

#[test]
fn empty_recipe_has_no_text() {
    assert_eq!(compose(&Vec::new()), "");
    assert_eq!(ImageRecipe::new().text(), "");
}

#[test]
fn one_snippet_ends_with_a_blank_line() {
    assert_eq!(compose(&vec![snippet(7, "RUN true")]), "RUN true\n\n");
}

#[test]
fn priorities_come_out_ascending() {
    let text = compose(&vec![snippet(255, "last"), snippet(0, "first"), snippet(128, "middle")]);
    assert_eq!(text, "first\n\nmiddle\n\nlast\n\n");
}

#[test]
fn same_priority_keeps_contribution_order() {
    let text = compose(&vec![snippet(3, "A"), snippet(9, "other"), snippet(3, "B"), snippet(3, "C")]);
    assert_eq!(text, "A\nB\nC\n\nother\n\n");
    let text = compose(&vec![snippet(3, "B"), snippet(3, "A")]);
    assert_eq!(text, "B\nA\n\n");
}

#[test]
fn empty_text_still_takes_its_line() {
    let text = compose(&vec![snippet(3, ""), snippet(3, "Y")]);
    assert_eq!(text, "\nY\n\n");
}

#[test]
fn composition_is_deterministic() {
    let snippets = vec![snippet(5, "X"), snippet(5, "Y"), snippet(1, "Z"), snippet(200, "W")];
    assert_eq!(compose(&snippets), compose(&snippets));
    let manager = ContainerManager::default_debian(
        String::from("app"),
        vec![String::from("app:v1")],
        Vec::new(),
        vec![aspect_with("a", snippets)],
        Vec::new(),
    );
    assert_eq!(manager.dockerfile(), manager.dockerfile());
}

#[test]
fn image_recipe_accumulates_by_priority() {
    let mut recipe = ImageRecipe::new();
    recipe.add(5, "X");
    recipe.add(1, "Z");
    recipe.add(5, "Y");
    assert_eq!(recipe.text(), "Z\n\nX\nY\n\n");
}

#[test]
fn debian_comes_first_and_brings_its_recipe() {
    let manager = ContainerManager::default_debian(
        String::from("app"),
        vec![String::from("app:v1")],
        Vec::new(),
        vec![ContainerAspect::new(String::from("other"))],
        Vec::new(),
    );
    let aspects = manager.aspects();
    assert_eq!(aspects.len(), 2);
    assert_eq!(aspects[0].name, "Debian");
    assert_eq!(aspects[1].name, "other");
    let orders: Vec<u8> = aspects[0].dockerfile_snippets.iter().map(|s| s.order).collect();
    assert_eq!(orders, vec![0, 3, 2]);
    assert_eq!(aspects[0].dockerfile_snippets[0].content, "FROM debian:buster");
    let expected = format!("{}\n\n{}\n\n{}\n\n", DEBIAN_BASE, DEBIAN_TOOLS, DEBIAN_LANGUAGE_PACKS);
    assert_eq!(manager.dockerfile(), expected);
    assert!(DEBIAN_TOOLS.starts_with("RUN apt-get update && apt-get install -y \\\n"));
    assert!(DEBIAN_LANGUAGE_PACKS.starts_with("# Useful language packs\n"));
}
