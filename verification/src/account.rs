//! An account on the service and the operations on it.
//!
//! [`AccountBuilder`] collects what an account is made from; [`Telegraph`]
//! holds the access token and the author of an account and builds the request
//! of each operation. Nothing here sends a request: the caller sends it and
//! hands the answer to [`crate::types::decode`], or, for the three operations
//! that change what is held, to the matching `finish_` function.

use crate::convert::{child_nodes, children_to_nodes};
use crate::dom::{doms_view, Dom};
use crate::error::{Error, ErrorView};
use crate::json::{json_string_array, string_array_text, texts_view};
use crate::node::{lemma_nodes_well_formed_names_distinct, nodes_text, nodes_view, push_nodes_json};
use crate::request::{params_view, push_param, Method, Request, RequestView};
use crate::text::{bool_text, bool_to_string, i32_to_string, int_text, opt_text, or_empty};
use crate::types::Account;
use reqwest::Client;
use vstd::prelude::*;
use vstd::string::*;

verus! {

/// `reqwest::Client`, the HTTP client that requests are sent with. An account
/// carries one from its builder to whoever sends its requests; nothing here
/// looks inside it.
#[verifier::external_type_specification]
#[verifier::external_body]
pub struct ExClient(reqwest::Client);

/// What an account is created from, or edited to.
#[derive(Debug, Clone)]
pub struct AccountBuilder {
    access_token: Option<String>,
    short_name: String,
    author_name: Option<String>,
    author_url: Option<String>,
    client: Option<Client>,
}

/// An account of the service: its access token, and the author under which
/// its pages are published.
#[derive(Debug, Clone)]
pub struct Telegraph {
    client: Option<Client>,
    access_token: String,
    short_name: String,
    author_name: String,
    author_url: Option<String>,
}

/// What an [`AccountBuilder`] holds. `client` is the HTTP client to send
/// with, `None` for the default one.
pub struct AccountBuilderView {
    pub access_token: Option<Seq<char>>,
    pub short_name: Seq<char>,
    pub author_name: Option<Seq<char>>,
    pub author_url: Option<Seq<char>>,
    pub client: Option<Client>,
}

/// What a [`Telegraph`] holds. `client` is the HTTP client to send with,
/// `None` for the default one.
pub struct TelegraphView {
    pub access_token: Seq<char>,
    pub short_name: Seq<char>,
    pub author_name: Seq<char>,
    pub author_url: Option<Seq<char>>,
    pub client: Option<Client>,
}

impl View for AccountBuilder {
    type V = AccountBuilderView;

    closed spec fn view(&self) -> AccountBuilderView {
        AccountBuilderView {
            access_token: opt_text(self.access_token),
            short_name: self.short_name@,
            author_name: opt_text(self.author_name),
            author_url: opt_text(self.author_url),
            client: self.client,
        }
    }
}

impl View for Telegraph {
    type V = TelegraphView;

    closed spec fn view(&self) -> TelegraphView {
        TelegraphView {
            access_token: self.access_token@,
            short_name: self.short_name@,
            author_name: self.author_name@,
            author_url: opt_text(self.author_url),
            client: self.client,
        }
    }
}

/// A result with its value and its error taken by their views.
pub open spec fn telegraph_result(r: Result<Telegraph, Error>) -> Result<TelegraphView, ErrorView> {
    match r {
        Ok(telegraph) => Ok(telegraph@),
        Err(e) => Err(e@),
    }
}

/// One parameter, where there is a value for it.
pub open spec fn optional_param(name: Seq<char>, value: Option<Seq<char>>) -> Seq<
    (Seq<char>, Seq<char>),
> {
    match value {
        Some(value) => seq![(name, value)],
        None => Seq::empty(),
    }
}

/// The request that registers a new account.
pub open spec fn create_account_request(
    short_name: Seq<char>,
    author_name: Option<Seq<char>>,
    author_url: Option<Seq<char>>,
) -> RequestView {
    RequestView {
        method: Method::Get,
        url: "https://api.telegra.ph/createAccount"@,
        params: seq![("short_name"@, short_name)] + optional_param("author_name"@, author_name)
            + optional_param("author_url"@, author_url),
    }
}

/// The request that a builder sends to create its account: none where it
/// holds an access token already.
pub open spec fn create_request(builder: AccountBuilderView) -> Option<RequestView> {
    match builder.access_token {
        Some(_) => None,
        None => Some(
            create_account_request(builder.short_name, builder.author_name, builder.author_url),
        ),
    }
}

/// The account that a builder makes with a given access token: the author's
/// name is the short name where the builder holds none.
pub open spec fn created(builder: AccountBuilderView, access_token: Seq<char>) -> TelegraphView {
    TelegraphView {
        access_token,
        short_name: builder.short_name,
        author_name: match builder.author_name {
            Some(name) => name,
            None => builder.short_name,
        },
        author_url: builder.author_url,
        client: builder.client,
    }
}

/// What creating an account ends in. A builder that holds an access token
/// imports it, whatever else is given. One that holds none takes the token
/// of the registered account; a failed registration is handed on, and a
/// registered account without a token, or no registration at all, is a
/// decode error.
pub open spec fn create_outcome(
    builder: AccountBuilderView,
    registered: Option<Result<Account, Error>>,
) -> Result<TelegraphView, ErrorView> {
    match builder.access_token {
        Some(token) => Ok(created(builder, token)),
        None => match registered {
            Some(Ok(account)) => match account.access_token {
                Some(token) => Ok(created(builder, token@)),
                None => Err(ErrorView::Decode("missing access_token"@)),
            },
            Some(Err(e)) => Err(e@),
            None => Err(ErrorView::Decode("missing access_token"@)),
        },
    }
}

/// The request that edits an account to what a builder holds: all three
/// fields are sent, the author's link as the empty text where there is none.
pub open spec fn edit_request(builder: AccountBuilderView) -> RequestView
    recommends
        builder.access_token is Some,
        builder.author_name is Some,
{
    RequestView {
        method: Method::Get,
        url: "https://api.telegra.ph/editAccountInfo"@,
        params: seq![
            ("access_token"@, builder.access_token.unwrap()),
            ("short_name"@, builder.short_name),
            ("author_name"@, builder.author_name.unwrap()),
            ("author_url"@, or_empty(builder.author_url)),
        ],
    }
}

/// What editing an account ends in: the account as the service now describes
/// it, under the builder's access token and with the default client. A
/// failure is handed on; an answer without a short name is a decode error.
pub open spec fn edit_outcome(builder: AccountBuilderView, outcome: Result<Account, Error>) -> Result<
    TelegraphView,
    ErrorView,
>
    recommends
        builder.access_token is Some,
{
    match outcome {
        Ok(account) => match account.short_name {
            Some(short_name) => Ok(
                TelegraphView {
                    access_token: builder.access_token.unwrap(),
                    short_name: short_name@,
                    author_name: match account.author_name {
                        Some(name) => name@,
                        None => short_name@,
                    },
                    author_url: opt_text(account.author_url),
                    client: None,
                },
            ),
            None => Err(ErrorView::Decode("missing short_name"@)),
        },
        Err(e) => Err(e@),
    }
}

impl Default for AccountBuilder {
    fn default() -> (builder: AccountBuilder)
        ensures
            builder@ == (AccountBuilderView {
                access_token: None,
                short_name: Seq::empty(),
                author_name: None,
                author_url: None,
                client: None,
            }),
    {
        AccountBuilder {
            access_token: None,
            short_name: String::new(),
            author_name: None,
            author_url: None,
            client: None,
        }
    }
}

impl AccountBuilder {
    /// A builder for an account with the given short name and nothing else.
    pub fn new(short_name: &str) -> (builder: AccountBuilder)
        ensures
            builder@ == (AccountBuilderView {
                access_token: None,
                short_name: short_name@,
                author_name: None,
                author_url: None,
                client: None,
            }),
    {
        AccountBuilder {
            access_token: None,
            short_name: String::from_str(short_name),
            author_name: None,
            author_url: None,
            client: None,
        }
    }

    /// Sets the account name: it helps a user with several accounts to tell
    /// them apart, and no other user sees it.
    pub fn short_name(self, short_name: &str) -> (builder: AccountBuilder)
        ensures
            builder@ == (AccountBuilderView { short_name: short_name@, ..self@ }),
    {
        let mut builder = self;
        builder.short_name = String::from_str(short_name);
        builder
    }

    /// Sets the access token of an account that exists already.
    pub fn access_token(self, access_token: &str) -> (builder: AccountBuilder)
        ensures
            builder@ == (AccountBuilderView { access_token: Some(access_token@), ..self@ }),
    {
        let mut builder = self;
        builder.access_token = Some(String::from_str(access_token));
        builder
    }

    /// Sets the author name that new pages are published under.
    pub fn author_name(self, author_name: &str) -> (builder: AccountBuilder)
        ensures
            builder@ == (AccountBuilderView { author_name: Some(author_name@), ..self@ }),
    {
        let mut builder = self;
        builder.author_name = Some(String::from_str(author_name));
        builder
    }

    /// Sets the link that opens when a reader clicks on the author's name.
    pub fn author_url(self, author_url: &str) -> (builder: AccountBuilder)
        ensures
            builder@ == (AccountBuilderView { author_url: Some(author_url@), ..self@ }),
    {
        let mut builder = self;
        builder.author_url = Some(String::from_str(author_url));
        builder
    }

    /// Sets the HTTP client that the account's requests are sent with.
    pub fn client(self, client: Client) -> (builder: AccountBuilder)
        ensures
            builder@ == (AccountBuilderView { client: Some(client), ..self@ }),
    {
        let mut builder = self;
        builder.client = Some(client);
        builder
    }

    /// Whether the builder holds an access token.
    pub fn holds_access_token(&self) -> (held: bool)
        ensures
            held == self@.access_token is Some,
    {
        self.access_token.is_some()
    }

    /// Whether the builder holds an author name.
    pub fn holds_author_name(&self) -> (held: bool)
        ensures
            held == self@.author_name is Some,
    {
        self.author_name.is_some()
    }

    /// The request that registers the account, where the builder holds no
    /// access token; `None` where it holds one, and the account is imported
    /// without a call.
    pub fn create(&self) -> (request: Option<Request>)
        ensures
            match request {
                Some(request) => Some(request@),
                None => None,
            } == create_request(self@),
    {
        match &self.access_token {
            Some(_) => None,
            None => Some(
                Telegraph::create_account(
                    self.short_name.as_str(),
                    match &self.author_name {
                        Some(name) => Some(name.as_str()),
                        None => None,
                    },
                    match &self.author_url {
                        Some(url) => Some(url.as_str()),
                        None => None,
                    },
                ),
            ),
        }
    }

    /// The account, given what the registration ended in (`None` where
    /// [`AccountBuilder::create`] asked for no request).
    pub fn finish_create(self, registered: Option<Result<Account, Error>>) -> (r: Result<
        Telegraph,
        Error,
    >)
        ensures
            telegraph_result(r) == create_outcome(self@, registered),
    {
        let access_token = match self.access_token {
            Some(token) => token,
            None => match registered {
                Some(Ok(account)) => match account.access_token {
                    Some(token) => token,
                    None => {
                        return Err(Error::Decode(String::from_str("missing access_token")));
                    },
                },
                Some(Err(e)) => {
                    return Err(e);
                },
                None => {
                    return Err(Error::Decode(String::from_str("missing access_token")));
                },
            },
        };
        let author_name = match self.author_name {
            Some(name) => name,
            None => self.short_name.clone(),
        };
        Ok(
            Telegraph {
                client: self.client,
                access_token,
                short_name: self.short_name,
                author_name,
                author_url: self.author_url,
            },
        )
    }

    /// The request that edits the account to what the builder holds.
    pub fn edit(&self) -> (request: Request)
        requires
            self@.access_token is Some,
            self@.author_name is Some,
        ensures
            request@ == edit_request(self@),
    {
        let mut params: Vec<(String, String)> = Vec::new();
        assert(params_view(params@) =~= Seq::empty());
        push_param(&mut params, "access_token", self.access_token.as_ref().unwrap().as_str());
        push_param(&mut params, "short_name", self.short_name.as_str());
        push_param(&mut params, "author_name", self.author_name.as_ref().unwrap().as_str());
        match &self.author_url {
            Some(url) => push_param(&mut params, "author_url", url.as_str()),
            None => push_param(&mut params, "author_url", ""),
        }
        proof {
            reveal_strlit("");
            assert(""@ =~= Seq::<char>::empty());
            assert(params_view(params@) =~= edit_request(self@).params);
        }
        Request {
            method: Method::Get,
            url: String::from_str("https://api.telegra.ph/editAccountInfo"),
            params,
        }
    }

    /// The edited account, given what the call ended in.
    pub fn finish_edit(self, outcome: Result<Account, Error>) -> (r: Result<Telegraph, Error>)
        requires
            self@.access_token is Some,
        ensures
            telegraph_result(r) == edit_outcome(self@, outcome),
    {
        let account = match outcome {
            Ok(account) => account,
            Err(e) => {
                return Err(e);
            },
        };
        let short_name = match account.short_name {
            Some(name) => name,
            None => {
                return Err(Error::Decode(String::from_str("missing short_name")));
            },
        };
        let access_token = self.access_token.unwrap();
        let author_name = match account.author_name {
            Some(name) => name,
            None => short_name.clone(),
        };
        Ok(
            Telegraph {
                client: None,
                access_token,
                short_name,
                author_name,
                author_url: account.author_url,
            },
        )
    }
}

/// The request that creates a page.
pub open spec fn create_page_request(
    telegraph: TelegraphView,
    title: Seq<char>,
    content: Seq<char>,
    return_content: bool,
) -> RequestView {
    RequestView {
        method: Method::Post,
        url: "https://api.telegra.ph/createPage"@,
        params: seq![
            ("access_token"@, telegraph.access_token),
            ("title"@, title),
            ("author_name"@, telegraph.author_name),
            ("author_url"@, or_empty(telegraph.author_url)),
            ("content"@, content),
            ("return_content"@, bool_text(return_content)),
        ],
    }
}

/// The request that edits the page at `path`.
pub open spec fn edit_page_request(
    telegraph: TelegraphView,
    path: Seq<char>,
    title: Seq<char>,
    content: Seq<char>,
    return_content: bool,
) -> RequestView {
    RequestView {
        method: Method::Post,
        url: "https://api.telegra.ph/editPage"@,
        params: seq![
            ("access_token"@, telegraph.access_token),
            ("path"@, path),
            ("title"@, title),
            ("author_name"@, telegraph.author_name),
            ("author_url"@, or_empty(telegraph.author_url)),
            ("content"@, content),
            ("return_content"@, bool_text(return_content)),
        ],
    }
}

/// The request that asks for the given fields of the account.
pub open spec fn get_account_info_request(telegraph: TelegraphView, fields: Seq<Seq<char>>) -> RequestView {
    RequestView {
        method: Method::Get,
        url: "https://api.telegra.ph/getAccountInfo"@,
        params: seq![
            ("access_token"@, telegraph.access_token),
            ("fields"@, string_array_text(fields)),
        ],
    }
}

/// The request that asks for the page at `path`.
pub open spec fn get_page_request(path: Seq<char>, return_content: bool) -> RequestView {
    RequestView {
        method: Method::Get,
        url: "https://api.telegra.ph/getPage/"@ + path,
        params: seq![("return_content"@, bool_text(return_content))],
    }
}

/// The request that asks for `limit` pages of the account, from the one at
/// `offset` on.
pub open spec fn get_page_list_request(telegraph: TelegraphView, offset: int, limit: int) -> RequestView {
    RequestView {
        method: Method::Get,
        url: "https://api.telegra.ph/getPageList"@,
        params: seq![
            ("access_token"@, telegraph.access_token),
            ("offset"@, int_text(offset)),
            ("limit"@, int_text(limit)),
        ],
    }
}

/// The name of the component of a point in time at a position: year, month,
/// day, hour.
pub open spec fn time_component(position: int) -> Seq<char> {
    if position == 0 {
        "year"@
    } else if position == 1 {
        "month"@
    } else if position == 2 {
        "day"@
    } else {
        "hour"@
    }
}

/// The parameters that a point in time becomes: its first four components,
/// each under the name of its position.
pub open spec fn time_params(time: Seq<i32>) -> Seq<(Seq<char>, Seq<char>)> {
    Seq::new(
        if time.len() < 4 {
            time.len()
        } else {
            4
        },
        |i: int| (time_component(i), int_text(time[i] as int)),
    )
}

/// The request that asks for the views of the page at `path`, in all or in
/// the year, month, day or hour that `time` gives.
pub open spec fn get_views_request(path: Seq<char>, time: Seq<i32>) -> RequestView {
    RequestView {
        method: Method::Get,
        url: "https://api.telegra.ph/getViews/"@ + path,
        params: time_params(time),
    }
}

/// The request that revokes the access token of the account.
pub open spec fn revoke_access_token_request(telegraph: TelegraphView) -> RequestView {
    RequestView {
        method: Method::Get,
        url: "https://api.telegra.ph/revokeAccessToken"@,
        params: seq![("access_token"@, telegraph.access_token)],
    }
}

/// What an account holds once a call to revoke its token has ended: the new
/// token where the call gave one, and what it held before in every other case.
pub open spec fn revoked(telegraph: TelegraphView, outcome: Result<Account, Error>) -> TelegraphView {
    match outcome {
        Ok(account) => match account.access_token {
            Some(token) => TelegraphView { access_token: token@, ..telegraph },
            None => telegraph,
        },
        Err(_) => telegraph,
    }
}

/// What a call to revoke the token ends in: the account that the service
/// answered with; a failure is handed on, and an answer without a token is a
/// decode error.
pub open spec fn revoke_outcome(outcome: Result<Account, Error>) -> Result<Account, ErrorView> {
    match outcome {
        Ok(account) => match account.access_token {
            Some(_) => Ok(account),
            None => Err(ErrorView::Decode("missing access_token"@)),
        },
        Err(e) => Err(e@),
    }
}

/// A result with its error taken by its view.
pub open spec fn account_result(r: Result<Account, Error>) -> Result<Account, ErrorView> {
    match r {
        Ok(account) => Ok(account),
        Err(e) => Err(e@),
    }
}

fn time_component_str(position: usize) -> (name: &'static str)
    ensures
        name@ == time_component(position as int),
{
    if position == 0 {
        "year"
    } else if position == 1 {
        "month"
    } else if position == 2 {
        "day"
    } else {
        "hour"
    }
}

impl Telegraph {
    /// A builder for an account with the given short name.
    pub fn new(short_name: &str) -> (builder: AccountBuilder)
        ensures
            builder@ == (AccountBuilderView {
                access_token: None,
                short_name: short_name@,
                author_name: None,
                author_url: None,
                client: None,
            }),
    {
        AccountBuilder::new(short_name)
    }

    /// The access token that the account's requests carry.
    pub fn access_token(&self) -> (token: &str)
        ensures
            token@ == self@.access_token,
    {
        self.access_token.as_str()
    }

    /// The name of the account.
    pub fn short_name(&self) -> (name: &str)
        ensures
            name@ == self@.short_name,
    {
        self.short_name.as_str()
    }

    /// The author that pages are published under.
    pub fn author_name(&self) -> (name: &str)
        ensures
            name@ == self@.author_name,
    {
        self.author_name.as_str()
    }

    /// The link behind the author's name.
    pub fn author_url(&self) -> (url: Option<&str>)
        ensures
            match url {
                Some(url) => Some(url@),
                None => None,
            } == self@.author_url,
    {
        match &self.author_url {
            Some(url) => Some(url.as_str()),
            None => None,
        }
    }

    /// The HTTP client to send the account's requests with, or `None` for the
    /// default one.
    pub fn client(&self) -> (held: Option<&Client>)
        ensures
            held is Some <==> self@.client is Some,
            held is Some ==> *held.unwrap() == self@.client.unwrap(),
    {
        self.client.as_ref()
    }

    /// The request that registers a new account under `short_name`, with the
    /// author's name and link where they are given.
    pub fn create_account(
        short_name: &str,
        author_name: Option<&str>,
        author_url: Option<&str>,
    ) -> (request: Request)
        ensures
            request@ == create_account_request(
                short_name@,
                match author_name {
                    Some(name) => Some(name@),
                    None => None,
                },
                match author_url {
                    Some(url) => Some(url@),
                    None => None,
                },
            ),
    {
        let mut params: Vec<(String, String)> = Vec::new();
        assert(params_view(params@) =~= Seq::empty());
        push_param(&mut params, "short_name", short_name);
        match author_name {
            Some(name) => push_param(&mut params, "author_name", name),
            None => {},
        }
        match author_url {
            Some(url) => push_param(&mut params, "author_url", url),
            None => {},
        }
        let request = Request {
            method: Method::Get,
            url: String::from_str("https://api.telegra.ph/createAccount"),
            params,
        };
        assert(request@.params =~= create_account_request(
            short_name@,
            match author_name {
                Some(name) => Some(name@),
                None => None,
            },
            match author_url {
                Some(url) => Some(url@),
                None => None,
            },
        ).params);
        request
    }

    /// The request that creates a page with the given title. `content` is
    /// the JSON form of its nodes; with `return_content` the answer holds the
    /// page's content.
    pub fn create_page(&self, title: &str, content: &str, return_content: bool) -> (request:
        Request)
        ensures
            request@ == create_page_request(self@, title@, content@, return_content),
    {
        let mut params: Vec<(String, String)> = Vec::new();
        assert(params_view(params@) =~= Seq::empty());
        push_param(&mut params, "access_token", self.access_token.as_str());
        push_param(&mut params, "title", title);
        push_param(&mut params, "author_name", self.author_name.as_str());
        match &self.author_url {
            Some(url) => push_param(&mut params, "author_url", url.as_str()),
            None => push_param(&mut params, "author_url", ""),
        }
        push_param(&mut params, "content", content);
        push_param(&mut params, "return_content", bool_to_string(return_content).as_str());
        proof {
            reveal_strlit("");
            assert(""@ =~= Seq::<char>::empty());
            assert(params_view(params@) =~= create_page_request(
                self@,
                title@,
                content@,
                return_content,
            ).params);
        }
        Request {
            method: Method::Post,
            url: String::from_str("https://api.telegra.ph/createPage"),
            params,
        }
    }

    /// The request that creates a page whose content is what the given nodes
    /// of a document become.
    pub fn create_page_doms(&self, title: &str, content: &Vec<Dom>, return_content: bool) -> (request:
        Request)
        ensures
            request@ == create_page_request(
                self@,
                title@,
                nodes_text(child_nodes(doms_view(content@))),
                return_content,
            ),
    {
        let nodes = children_to_nodes(content);
        proof {
            lemma_nodes_well_formed_names_distinct(nodes_view(nodes@));
        }
        let mut json = String::new();
        push_nodes_json(&mut json, &nodes);
        assert(json@ =~= nodes_text(nodes_view(nodes@)));
        self.create_page(title, json.as_str(), return_content)
    }

    /// A builder that holds what the account holds, to edit it.
    pub fn edit_account_info(self) -> (builder: AccountBuilder)
        ensures
            builder@ == (AccountBuilderView {
                access_token: Some(self@.access_token),
                short_name: self@.short_name,
                author_name: Some(self@.author_name),
                author_url: self@.author_url,
                client: self@.client,
            }),
    {
        AccountBuilder {
            access_token: Some(self.access_token),
            short_name: self.short_name,
            author_name: Some(self.author_name),
            author_url: self.author_url,
            client: self.client,
        }
    }

    /// The request that edits the page at `path`. The account's author is
    /// sent with it, as it is now.
    pub fn edit_page(&self, path: &str, title: &str, content: &str, return_content: bool) -> (request:
        Request)
        ensures
            request@ == edit_page_request(self@, path@, title@, content@, return_content),
    {
        let mut params: Vec<(String, String)> = Vec::new();
        assert(params_view(params@) =~= Seq::empty());
        push_param(&mut params, "access_token", self.access_token.as_str());
        push_param(&mut params, "path", path);
        push_param(&mut params, "title", title);
        push_param(&mut params, "author_name", self.author_name.as_str());
        match &self.author_url {
            Some(url) => push_param(&mut params, "author_url", url.as_str()),
            None => push_param(&mut params, "author_url", ""),
        }
        push_param(&mut params, "content", content);
        push_param(&mut params, "return_content", bool_to_string(return_content).as_str());
        proof {
            reveal_strlit("");
            assert(""@ =~= Seq::<char>::empty());
            assert(params_view(params@) =~= edit_page_request(
                self@,
                path@,
                title@,
                content@,
                return_content,
            ).params);
        }
        Request {
            method: Method::Post,
            url: String::from_str("https://api.telegra.ph/editPage"),
            params,
        }
    }

    /// The request that asks for the given fields of the account
    /// (`short_name`, `author_name`, `author_url`, `auth_url`, `page_count`).
    pub fn get_account_info(&self, fields: &[&str]) -> (request: Request)
        ensures
            request@ == get_account_info_request(self@, texts_view(fields@)),
    {
        let list = json_string_array(fields);
        let mut params: Vec<(String, String)> = Vec::new();
        assert(params_view(params@) =~= Seq::empty());
        push_param(&mut params, "access_token", self.access_token.as_str());
        push_param(&mut params, "fields", list.as_str());
        assert(params_view(params@) =~= get_account_info_request(
            self@,
            texts_view(fields@),
        ).params);
        Request {
            method: Method::Get,
            url: String::from_str("https://api.telegra.ph/getAccountInfo"),
            params,
        }
    }

    /// The request that asks for the page at `path`; with `return_content`
    /// the answer holds the page's content. It needs no access token.
    pub fn get_page(path: &str, return_content: bool) -> (request: Request)
        ensures
            request@ == get_page_request(path@, return_content),
    {
        let mut params: Vec<(String, String)> = Vec::new();
        assert(params_view(params@) =~= Seq::empty());
        push_param(&mut params, "return_content", bool_to_string(return_content).as_str());
        assert(params_view(params@) =~= get_page_request(path@, return_content).params);
        Request {
            method: Method::Get,
            url: String::from_str("https://api.telegra.ph/getPage/").concat(path),
            params,
        }
    }

    /// The request that asks for the account's pages, most recent first:
    /// `limit` of them, from the one at `offset` on.
    pub fn get_page_list(&self, offset: i32, limit: i32) -> (request: Request)
        ensures
            request@ == get_page_list_request(self@, offset as int, limit as int),
    {
        let mut params: Vec<(String, String)> = Vec::new();
        assert(params_view(params@) =~= Seq::empty());
        push_param(&mut params, "access_token", self.access_token.as_str());
        push_param(&mut params, "offset", i32_to_string(offset).as_str());
        push_param(&mut params, "limit", i32_to_string(limit).as_str());
        assert(params_view(params@) =~= get_page_list_request(
            self@,
            offset as int,
            limit as int,
        ).params);
        Request {
            method: Method::Get,
            url: String::from_str("https://api.telegra.ph/getPageList"),
            params,
        }
    }

    /// The request that asks for the number of views of the page at `path`.
    /// `time` is a prefix of year, month, day, hour: the fewer components,
    /// the coarser the count; with none, all views are counted. Components
    /// after the fourth are not sent.
    pub fn get_views(path: &str, time: &[i32]) -> (request: Request)
        ensures
            request@ == get_views_request(path@, time@),
    {
        let mut params: Vec<(String, String)> = Vec::new();
        assert(params_view(params@) =~= Seq::empty());
        let mut i: usize = 0;
        while i < time.len() && i < 4
            invariant
                i <= time.len(),
                i <= 4,
                params_view(params@).len() == i,
                forall|k: int|
                    0 <= k < i ==> (#[trigger] params_view(params@)[k]) == (
                        time_component(k),
                        int_text(time[k] as int),
                    ),
            decreases 4 - i,
        {
            push_param(&mut params, time_component_str(i), i32_to_string(time[i]).as_str());
            i += 1;
        }
        assert(params_view(params@) =~= time_params(time@));
        Request {
            method: Method::Get,
            url: String::from_str("https://api.telegra.ph/getViews/").concat(path),
            params,
        }
    }

    /// The request that revokes the access token and asks for a new one.
    pub fn revoke_access_token(&self) -> (request: Request)
        ensures
            request@ == revoke_access_token_request(self@),
    {
        let mut params: Vec<(String, String)> = Vec::new();
        assert(params_view(params@) =~= Seq::empty());
        push_param(&mut params, "access_token", self.access_token.as_str());
        assert(params_view(params@) =~= revoke_access_token_request(self@).params);
        Request {
            method: Method::Get,
            url: String::from_str("https://api.telegra.ph/revokeAccessToken"),
            params,
        }
    }

    /// Takes what the call to revoke the token ended in. Where the service
    /// answered with a new token the account holds it from now on; in every
    /// other case it holds what it held.
    pub fn finish_revoke(&mut self, outcome: Result<Account, Error>) -> (r: Result<Account, Error>)
        ensures
            final(self)@ == revoked(old(self)@, outcome),
            account_result(r) == revoke_outcome(outcome),
    {
        match outcome {
            Ok(account) => {
                match &account.access_token {
                    Some(token) => {
                        self.access_token = token.clone();
                        Ok(account)
                    },
                    None => Err(Error::Decode(String::from_str("missing access_token"))),
                }
            },
            Err(e) => Err(e),
        }
    }
}

/// Once a call to revoke the token has given a new one, the account holds it
/// and every request of the account that carries a token carries the new one;
/// once the call has failed, the account holds what it held and its requests
/// carry the token held before.
pub proof fn lemma_requests_carry_held_token(
    telegraph: TelegraphView,
    outcome: Result<Account, Error>,
    title: Seq<char>,
    path: Seq<char>,
    content: Seq<char>,
    return_content: bool,
    fields: Seq<Seq<char>>,
    offset: int,
    limit: int,
)
    ensures
        match revoke_outcome(outcome) {
            Ok(account) => account.access_token is Some && revoked(telegraph, outcome).access_token
                == account.access_token.unwrap()@,
            Err(_) => revoked(telegraph, outcome) == telegraph,
        },
        create_page_request(
            revoked(telegraph, outcome),
            title,
            content,
            return_content,
        ).params[0] == ("access_token"@, revoked(telegraph, outcome).access_token),
        edit_page_request(
            revoked(telegraph, outcome),
            path,
            title,
            content,
            return_content,
        ).params[0] == ("access_token"@, revoked(telegraph, outcome).access_token),
        get_account_info_request(revoked(telegraph, outcome), fields).params[0] == (
            "access_token"@,
            revoked(telegraph, outcome).access_token,
        ),
        get_page_list_request(revoked(telegraph, outcome), offset, limit).params[0] == (
            "access_token"@,
            revoked(telegraph, outcome).access_token,
        ),
        revoke_access_token_request(revoked(telegraph, outcome)).params[0] == (
            "access_token"@,
            revoked(telegraph, outcome).access_token,
        ),
{
}

} // verus!
