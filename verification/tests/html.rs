#[test]
fn html_to_node() {
    let html = r#"<a>Text</a><p>img:<img src="https://me"></p>"#;
    println!("{}", telegraph_rs::convert::html_to_node(html).unwrap());
}
