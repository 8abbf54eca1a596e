use terms::thumbnail::{apply_theme, node_style, process_node, try_apply_theme, SvgNode};

fn leaf(label: Option<&str>) -> SvgNode {
    SvgNode { label: label.map(|l| l.to_string()), children: vec![] }
}

fn palette16() -> Vec<String> {
    (0..16).map(|i| format!("#{:06x}", i)).collect()
}

fn stroke(color: &str) -> String {
    format!("stroke:{};stroke-width:3;stroke-linecap:round;", color)
}

#[test]
fn foreground_node_takes_foreground_color() {
    let r = node_style(&Some("fg".to_string()), &Some(palette16()), &Some("#ffffff".to_string()), 0);
    assert_eq!(r, Some(stroke("#ffffff")));
}

#[test]
fn foreground_node_without_foreground_keeps_its_style() {
    let r = node_style(&Some("fg".to_string()), &Some(palette16()), &None, 0);
    assert_eq!(r, None);
}

#[test]
fn palette_node_takes_the_picked_entry() {
    let p = palette16();
    let r = node_style(&Some("palette".to_string()), &Some(p.clone()), &None, 9);
    assert_eq!(r, Some(stroke(&p[9])));
}

#[test]
fn palette_node_without_palette_keeps_its_style() {
    assert_eq!(node_style(&Some("palette".to_string()), &None, &Some("#ffffff".to_string()), 0), None);
}

#[test]
fn other_nodes_keep_their_style() {
    assert_eq!(node_style(&Some("bg".to_string()), &Some(palette16()), &Some("#ffffff".to_string()), 0), None);
    assert_eq!(node_style(&None, &Some(palette16()), &Some("#ffffff".to_string()), 0), None);
}

#[test]
fn styles_come_in_document_order() {
    let tree = SvgNode {
        label: None,
        children: vec![
            SvgNode { label: Some("fg".to_string()), children: vec![leaf(Some("bg")), leaf(Some("fg"))] },
            leaf(Some("palette")),
            leaf(None),
        ],
    };
    let p = palette16();
    let styles = process_node(&tree, &Some(p.clone()), &Some("#eeeeee".to_string()));
    assert_eq!(styles.len(), 6);
    assert_eq!(styles[0], None);
    assert_eq!(styles[1], Some(stroke("#eeeeee")));
    assert_eq!(styles[2], None);
    assert_eq!(styles[3], Some(stroke("#eeeeee")));
    let picked = styles[4].clone().unwrap();
    assert!(p[7..].iter().any(|c| stroke(c) == picked));
    assert_eq!(styles[5], None);
}

#[test]
fn palette_picks_vary_past_the_first_seven() {
    let tree = SvgNode { label: None, children: (0..200).map(|_| leaf(Some("palette"))).collect() };
    let p = palette16();
    let styles = process_node(&tree, &Some(p.clone()), &None);
    let picked: Vec<String> = styles[1..].iter().map(|s| s.clone().unwrap()).collect();
    for s in &picked {
        assert!(p[7..].iter().any(|c| &stroke(c) == s));
        assert!(!p[..7].iter().any(|c| &stroke(c) == s));
    }
    assert!(picked.iter().any(|s| s != &picked[0]));
}

#[test]
fn short_palette_is_fine_without_palette_nodes() {
    let tree = SvgNode { label: Some("fg".to_string()), children: vec![leaf(None)] };
    let styles = process_node(&tree, &Some(vec!["#000000".to_string()]), &None);
    assert_eq!(styles, vec![None, None]);
}

const PICTURE: &str = r#"<svg><path label="fg" d="M0 0"/><g><path label="palette"/><path label="other"/></g></svg>"#;

#[test]
fn theme_is_painted_into_the_picture() {
    let p = palette16();
    let out = apply_theme(PICTURE.as_bytes(), &Some(p.clone()), &Some("#eeeeee".to_string())).unwrap();
    assert!(out.contains(&stroke("#eeeeee")));
    assert!(p[7..].iter().any(|c| out.contains(&stroke(c))));
    assert!(!p[..7].iter().any(|c| out.contains(&stroke(c))));
    assert_eq!(out.matches("style=").count(), 2);
}

#[test]
fn picture_that_does_not_parse_gives_nothing() {
    assert_eq!(apply_theme(b"<svg><path", &Some(palette16()), &None), None);
    assert_eq!(try_apply_theme(b"<svg><path", &Some(vec![]), &None), Some(None));
}

#[test]
fn short_palette_is_refused_only_with_palette_strokes() {
    let short = Some(vec!["#000000".to_string()]);
    assert_eq!(try_apply_theme(PICTURE.as_bytes(), &short, &None), None);
    let plain = r#"<svg><path label="fg"/></svg>"#;
    let out = try_apply_theme(plain.as_bytes(), &short, &Some("#111111".to_string())).unwrap().unwrap();
    assert!(out.contains(&stroke("#111111")));
}
