use pixel_tracker::error::{AppError, Failure};
use pixel_tracker::issue::Issued;
use pixel_tracker::page::{page_from_rendered, page_vars, render_page, INDEX};

#[test]
fn empty_form_has_empty_fields() {
    let page = render_page(&None).unwrap();
    assert!(page.contains("<h1>pixel-tracker</h1>"));
    assert!(page.contains("<input type=\"text\" id=\"name\" name=\"name\" value=\"\" ><br><br>"));
    assert!(page
        .contains("<input type=\"text\" id=\"webhook\" name=\"webhook\" value=\"\" ><br><br>"));
    assert!(page.contains("<h2><tt></tt></h2>"));
    assert!(!page.contains("{{"));
    assert_ne!(page, INDEX);
}

#[test]
fn issued_link_is_shown_with_its_fields() {
    let issued = Issued {
        name: String::from("promo1"),
        webhook: String::from("https://example.org/notify"),
        result: String::from("https://t.example/pt/Zm9v"),
    };
    let page = render_page(&Some(issued)).unwrap();
    assert!(page.contains("id=\"name\" name=\"name\" value=\"promo1\" >"));
    assert!(page.contains("<h2><tt>https://t.example/pt/Zm9v</tt></h2>"));
    assert!(page.contains("value=\"https://example.org/notify\""));
}

#[test]
fn fields_are_escaped_on_the_page() {
    let issued = Issued {
        name: String::from("a\"><b>&"),
        webhook: String::from("w"),
        result: String::from("r"),
    };
    let page = render_page(&Some(issued)).unwrap();
    assert!(page.contains("value=\"a&quot;&gt;&lt;b&gt;&amp;\""));
    assert!(!page.contains("<b>"));
}

#[test]
fn variables_of_the_page() {
    assert_eq!(page_vars(&None), vec![]);
    let issued = Issued {
        name: String::from("n"),
        webhook: String::from("w"),
        result: String::from("r"),
    };
    assert_eq!(
        page_vars(&Some(issued)),
        vec![
            (String::from("name"), String::from("n")),
            (String::from("webhook"), String::from("w")),
            (String::from("result"), String::from("r")),
        ]
    );
}

#[test]
fn page_or_error() {
    assert_eq!(page_from_rendered(Some(String::from("<p>"))), Ok(String::from("<p>")));
    assert_eq!(page_from_rendered(None), Err(AppError(Failure::Render)));
}
