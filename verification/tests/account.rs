use telegraph_rs::account::{AccountBuilder, Telegraph};
use telegraph_rs::dom::{Dom, DomAttribute};
use telegraph_rs::error::Error;
use telegraph_rs::request::{push_param, Method, Request};
use telegraph_rs::types::{decode, Account, ApiResult, Page, PageList, PageViews};

const TOKEN: &str = "d3b25feccb89e508a9114afb82aa421fe2a9712b963b387cc5ad71e58722";

fn params(pairs: &[(&str, &str)]) -> Vec<(String, String)> {
    pairs.iter().map(|(name, value)| (name.to_string(), value.to_string())).collect()
}

fn account(short_name: Option<&str>, author_name: Option<&str>, access_token: Option<&str>) -> Account {
    Account {
        short_name: short_name.map(str::to_owned),
        author_name: author_name.map(str::to_owned),
        author_url: None,
        access_token: access_token.map(str::to_owned),
        auth_url: None,
        page_count: None,
    }
}

fn imported() -> Telegraph {
    Telegraph::new("test").access_token(TOKEN).finish_create(None).unwrap()
}

fn sample_page(path: &str) -> Page {
    Page {
        path: path.to_owned(),
        url: format!("https://telegra.ph/{}", path),
        title: "OVO".to_owned(),
        description: String::new(),
        author_name: Some("test".to_owned()),
        author_url: None,
        image_url: None,
        content: None,
        views: Some(0),
    }
}

#[test]
fn create_and_revoke_account() {
    let request = Telegraph::create_account("sample", Some("a"), None);
    assert_eq!(
        request,
        Request {
            method: Method::Get,
            url: "https://api.telegra.ph/createAccount".to_owned(),
            params: params(&[("short_name", "sample"), ("author_name", "a")]),
        }
    );
    let result = decode(Ok(ApiResult::Success {
        result: account(Some("sample"), Some("a"), Some("first-token")),
    }));
    println!("{:?}", result);
    assert!(result.is_ok());

    let mut telegraph = Telegraph::new("test")
        .access_token(&result.unwrap().access_token.unwrap().to_owned())
        .finish_create(None)
        .unwrap();
    assert_eq!(telegraph.access_token(), "first-token");
    assert_eq!(
        telegraph.revoke_access_token(),
        Request {
            method: Method::Get,
            url: "https://api.telegra.ph/revokeAccessToken".to_owned(),
            params: params(&[("access_token", "first-token")]),
        }
    );
    let result = telegraph.finish_revoke(Ok(account(Some("test"), None, Some("second-token"))));
    println!("{:?}", result);
    assert!(result.is_ok());
    assert_eq!(result.unwrap().access_token, Some("second-token".to_owned()));
    assert_eq!(telegraph.access_token(), "second-token");
}

#[test]
fn requests_after_a_revoke_carry_the_new_token() {
    let mut telegraph = imported();
    telegraph.finish_revoke(Ok(account(None, None, Some("fresh")))).unwrap();
    assert_eq!(telegraph.revoke_access_token().params[0], ("access_token".to_owned(), "fresh".to_owned()));
    assert_eq!(
        telegraph.create_page("t", "[]", false).params[0],
        ("access_token".to_owned(), "fresh".to_owned())
    );
    assert_eq!(
        telegraph.edit_page("p", "t", "[]", false).params[0],
        ("access_token".to_owned(), "fresh".to_owned())
    );
    assert_eq!(
        telegraph.get_page_list(0, 1).params[0],
        ("access_token".to_owned(), "fresh".to_owned())
    );
    assert_eq!(
        telegraph.get_account_info(&[]).params[0],
        ("access_token".to_owned(), "fresh".to_owned())
    );
    assert_eq!(telegraph.short_name(), "test");
    assert_eq!(telegraph.author_name(), "test");
}

#[test]
fn a_failed_revoke_leaves_the_token() {
    let mut telegraph = imported();
    let failed = telegraph.finish_revoke(Err(Error::ApiError("ACCESS_TOKEN_INVALID".to_owned())));
    assert_eq!(failed, Err(Error::ApiError("ACCESS_TOKEN_INVALID".to_owned())));
    assert_eq!(telegraph.access_token(), TOKEN);
    let dropped = telegraph.finish_revoke(Err(Error::Transport("connection reset".to_owned())));
    assert_eq!(dropped, Err(Error::Transport("connection reset".to_owned())));
    assert_eq!(telegraph.access_token(), TOKEN);
    let no_token = telegraph.finish_revoke(Ok(account(Some("test"), None, None)));
    assert_eq!(no_token, Err(Error::Decode("missing access_token".to_owned())));
    assert_eq!(telegraph.access_token(), TOKEN);
}

#[test]
fn create_registers_only_without_a_token() {
    assert_eq!(Telegraph::new("test").access_token(TOKEN).create(), None);
    let builder = AccountBuilder::new("n").author_name("A").author_url("https://a");
    assert_eq!(
        builder.create(),
        Some(Request {
            method: Method::Get,
            url: "https://api.telegra.ph/createAccount".to_owned(),
            params: params(&[("short_name", "n"), ("author_name", "A"), ("author_url", "https://a")]),
        })
    );
    assert_eq!(
        Telegraph::new("only").create(),
        Some(Request {
            method: Method::Get,
            url: "https://api.telegra.ph/createAccount".to_owned(),
            params: params(&[("short_name", "only")]),
        })
    );
}

#[test]
fn finish_create_takes_the_registered_token() {
    let telegraph = Telegraph::new("n")
        .author_url("https://a")
        .finish_create(Some(Ok(account(Some("n"), None, Some("new-token")))))
        .unwrap();
    assert_eq!(telegraph.access_token(), "new-token");
    assert_eq!(telegraph.short_name(), "n");
    assert_eq!(telegraph.author_name(), "n");
    assert_eq!(telegraph.author_url(), Some("https://a"));
    assert!(telegraph.client().is_none());
    let named = Telegraph::new("n").author_name("Author").access_token("held").finish_create(None).unwrap();
    assert_eq!(named.author_name(), "Author");
    assert_eq!(named.access_token(), "held");
    assert_eq!(named.author_url(), None);
}

#[test]
fn finish_create_ignores_a_registration_when_a_token_is_held() {
    let telegraph = Telegraph::new("n")
        .access_token("held")
        .finish_create(Some(Err(Error::Transport("unused".to_owned()))))
        .unwrap();
    assert_eq!(telegraph.access_token(), "held");
}

#[test]
fn finish_create_hands_on_a_failure() {
    let failed = Telegraph::new("n").finish_create(Some(Err(Error::ApiError("SHORT_NAME_REQUIRED".to_owned()))));
    assert_eq!(failed.err(), Some(Error::ApiError("SHORT_NAME_REQUIRED".to_owned())));
    let no_token = Telegraph::new("n").finish_create(Some(Ok(account(Some("n"), None, None))));
    assert_eq!(no_token.err(), Some(Error::Decode("missing access_token".to_owned())));
    let nothing = Telegraph::new("n").finish_create(None);
    assert_eq!(nothing.err(), Some(Error::Decode("missing access_token".to_owned())));
}

#[test]
fn builder_setters_replace_one_field() {
    let telegraph = AccountBuilder::default()
        .short_name("first")
        .short_name("second")
        .access_token("t1")
        .access_token("t2")
        .author_name("a1")
        .author_name("a2")
        .author_url("u1")
        .author_url("u2")
        .client(reqwest::Client::new())
        .finish_create(None)
        .unwrap();
    assert_eq!(telegraph.short_name(), "second");
    assert_eq!(telegraph.access_token(), "t2");
    assert_eq!(telegraph.author_name(), "a2");
    assert_eq!(telegraph.author_url(), Some("u2"));
    assert!(telegraph.client().is_some());
}

#[test]
fn edit_account_info() {
    let builder = Telegraph::new("test")
        .access_token(TOKEN)
        .finish_create(None)
        .unwrap()
        .edit_account_info()
        .short_name("wow");
    assert_eq!(
        builder.edit(),
        Request {
            method: Method::Get,
            url: "https://api.telegra.ph/editAccountInfo".to_owned(),
            params: params(&[
                ("access_token", TOKEN),
                ("short_name", "wow"),
                ("author_name", "test"),
                ("author_url", ""),
            ]),
        }
    );
    let result = builder.finish_edit(Ok(account(Some("wow"), Some("test"), None)));
    println!("{:?}", result);
    assert!(result.is_ok());
    let telegraph = result.unwrap();
    assert_eq!(telegraph.access_token(), TOKEN);
    assert_eq!(telegraph.short_name(), "wow");
    assert_eq!(telegraph.author_name(), "test");
    assert_eq!(telegraph.author_url(), None);
}

#[test]
fn edit_sends_the_author_url_that_is_held() {
    let builder = Telegraph::new("n")
        .access_token("t")
        .author_name("A")
        .author_url("https://a")
        .finish_create(None)
        .unwrap()
        .edit_account_info();
    assert_eq!(
        builder.edit().params,
        params(&[
            ("access_token", "t"),
            ("short_name", "n"),
            ("author_name", "A"),
            ("author_url", "https://a"),
        ])
    );
}

#[test]
fn finish_edit_takes_the_account_that_the_service_describes() {
    let builder = imported().edit_account_info().client(reqwest::Client::new());
    let mut answered = account(Some("new"), None, None);
    answered.author_url = Some("https://new".to_owned());
    let telegraph = builder.finish_edit(Ok(answered)).unwrap();
    assert_eq!(telegraph.short_name(), "new");
    assert_eq!(telegraph.author_name(), "new");
    assert_eq!(telegraph.author_url(), Some("https://new"));
    assert_eq!(telegraph.access_token(), TOKEN);
    assert!(telegraph.client().is_none());
}

#[test]
fn finish_edit_hands_on_a_failure() {
    let failed = imported().edit_account_info().finish_edit(Err(Error::ApiError("X".to_owned())));
    assert_eq!(failed.err(), Some(Error::ApiError("X".to_owned())));
    let unnamed = imported().edit_account_info().finish_edit(Ok(account(None, Some("a"), None)));
    assert_eq!(unnamed.err(), Some(Error::Decode("missing short_name".to_owned())));
}

#[test]
fn get_account_info() {
    let request = Telegraph::new("test")
        .access_token(TOKEN)
        .finish_create(None)
        .unwrap()
        .get_account_info(&["short_name"]);
    assert_eq!(
        request,
        Request {
            method: Method::Get,
            url: "https://api.telegra.ph/getAccountInfo".to_owned(),
            params: params(&[("access_token", TOKEN), ("fields", "[\"short_name\"]")]),
        }
    );
    let result = decode(Ok(ApiResult::Success { result: account(Some("test"), None, None) }));
    println!("{:?}", result);
    assert!(result.is_ok());
}

#[test]
fn get_account_info_lists_every_field() {
    let request = imported()
        .get_account_info(&["short_name", "author_name", "author_url", "auth_url", "page_count"]);
    assert_eq!(
        request.params[1],
        (
            "fields".to_owned(),
            "[\"short_name\",\"author_name\",\"author_url\",\"auth_url\",\"page_count\"]".to_owned()
        )
    );
    assert_eq!(imported().get_account_info(&[]).params[1].1, "[]");
}

#[test]
fn create_get_edit_page() {
    let telegraph = Telegraph::new("test").access_token(TOKEN).finish_create(None).unwrap();
    let request = telegraph.create_page("OVO", r#"[{"tag":"p","children":["Hello,+world!"]}]"#, false);
    assert_eq!(
        request,
        Request {
            method: Method::Post,
            url: "https://api.telegra.ph/createPage".to_owned(),
            params: params(&[
                ("access_token", TOKEN),
                ("title", "OVO"),
                ("author_name", "test"),
                ("author_url", ""),
                ("content", r#"[{"tag":"p","children":["Hello,+world!"]}]"#),
                ("return_content", "false"),
            ]),
        }
    );
    let page = decode(Ok(ApiResult::Success { result: sample_page("OVO-12-15") }));
    println!("{:?}", page);
    assert!(page.is_ok());

    let request = Telegraph::get_page(&page.unwrap().path, true);
    assert_eq!(
        request,
        Request {
            method: Method::Get,
            url: "https://api.telegra.ph/getPage/OVO-12-15".to_owned(),
            params: params(&[("return_content", "true")]),
        }
    );
    let page = decode(Ok(ApiResult::Success { result: sample_page("OVO-12-15") }));
    println!("{:?}", page);
    assert!(page.is_ok());

    let request = telegraph.edit_page(
        &page.unwrap().path,
        "QAQ",
        r#"[{"tag":"p","children":["Goodbye,+world!"]}]"#,
        false,
    );
    assert_eq!(
        request,
        Request {
            method: Method::Post,
            url: "https://api.telegra.ph/editPage".to_owned(),
            params: params(&[
                ("access_token", TOKEN),
                ("path", "OVO-12-15"),
                ("title", "QAQ"),
                ("author_name", "test"),
                ("author_url", ""),
                ("content", r#"[{"tag":"p","children":["Goodbye,+world!"]}]"#),
                ("return_content", "false"),
            ]),
        }
    );
    let page = decode(Ok(ApiResult::Success { result: sample_page("OVO-12-15") }));
    println!("{:?}", page);
    assert!(page.is_ok());
}

#[test]
fn page_requests_send_the_author_as_it_is_held() {
    let telegraph = Telegraph::new("n")
        .access_token("t")
        .author_name("A")
        .author_url("https://a")
        .finish_create(None)
        .unwrap();
    let created = telegraph.create_page("T", "[]", true);
    assert_eq!(created.params[2], ("author_name".to_owned(), "A".to_owned()));
    assert_eq!(created.params[3], ("author_url".to_owned(), "https://a".to_owned()));
    assert_eq!(created.params[5], ("return_content".to_owned(), "true".to_owned()));
    let edited = telegraph.edit_page("p", "T", "[]", true);
    assert_eq!(edited.params[3], ("author_name".to_owned(), "A".to_owned()));
    assert_eq!(edited.params[4], ("author_url".to_owned(), "https://a".to_owned()));
    assert_eq!(edited.params[6], ("return_content".to_owned(), "true".to_owned()));
}

#[test]
fn create_page_doms_sends_the_nodes_as_json() {
    let content = vec![Dom::Element {
        name: "p".to_owned(),
        attributes: vec![DomAttribute { name: "class".to_owned(), value: "x".to_owned() }],
        children: vec![Dom::Text("Hello, world".to_owned())],
    }];
    let request = imported().create_page_doms("title", &content, false);
    assert_eq!(request.method, Method::Post);
    assert_eq!(request.url, "https://api.telegra.ph/createPage");
    assert_eq!(
        request.params[4],
        ("content".to_owned(), r#"[{"tag":"p","children":["Hello, world"]}]"#.to_owned())
    );
    let with_comment = vec![Dom::Other, Dom::Text("kept".to_owned()), Dom::Other];
    let dropped = imported().create_page_doms("title", &with_comment, false);
    assert_eq!(dropped.params[4], ("content".to_owned(), "[\"kept\"]".to_owned()));
    let nothing = imported().create_page_doms("title", &vec![Dom::Other], false);
    assert_eq!(nothing.params[4], ("content".to_owned(), "[]".to_owned()));
}

#[test]
fn get_page_list() {
    let telegraph = Telegraph::new("test").access_token(TOKEN).finish_create(None).unwrap();
    let request = telegraph.get_page_list(0, 3);
    assert_eq!(
        request,
        Request {
            method: Method::Get,
            url: "https://api.telegra.ph/getPageList".to_owned(),
            params: params(&[("access_token", TOKEN), ("offset", "0"), ("limit", "3")]),
        }
    );
    let page_list = decode(Ok(ApiResult::Success {
        result: PageList { total_count: 1, pages: vec![sample_page("OVO-12-15")] },
    }));
    println!("{:?}", page_list);
    assert!(page_list.is_ok());
}

#[test]
fn get_page_list_writes_negative_numbers() {
    let request = imported().get_page_list(-1, i32::MAX);
    assert_eq!(request.params[1], ("offset".to_owned(), "-1".to_owned()));
    assert_eq!(request.params[2], ("limit".to_owned(), "2147483647".to_owned()));
}

#[test]
fn get_views() {
    let request = Telegraph::get_views("Sample-Page-12-15", &vec![2016, 12]);
    assert_eq!(
        request,
        Request {
            method: Method::Get,
            url: "https://api.telegra.ph/getViews/Sample-Page-12-15".to_owned(),
            params: params(&[("year", "2016"), ("month", "12")]),
        }
    );
    let views = decode(Ok(ApiResult::Success { result: PageViews { views: 40 } }));
    println!("{:?}", views);
    assert!(views.is_ok());
}

#[test]
fn get_views_sends_a_prefix_of_year_month_day_hour() {
    assert_eq!(Telegraph::get_views("p", &[]).params, params(&[]));
    assert_eq!(Telegraph::get_views("p", &[2019]).params, params(&[("year", "2019")]));
    assert_eq!(
        Telegraph::get_views("p", &[2019, 5, 19]).params,
        params(&[("year", "2019"), ("month", "5"), ("day", "19")])
    );
    assert_eq!(
        Telegraph::get_views("p", &[2019, 5, 19, 12]).params,
        params(&[("year", "2019"), ("month", "5"), ("day", "19"), ("hour", "12")])
    );
    assert_eq!(
        Telegraph::get_views("p", &[2019, 5, 19, 12, 30]).params,
        params(&[("year", "2019"), ("month", "5"), ("day", "19"), ("hour", "12")])
    );
}

#[test]
fn push_param_appends_one_pair() {
    let mut list = params(&[("a", "1")]);
    push_param(&mut list, "b", "2");
    assert_eq!(list, params(&[("a", "1"), ("b", "2")]));
}
