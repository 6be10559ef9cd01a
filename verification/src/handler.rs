use vstd::prelude::*;

use crate::database::{find_spec, lemma_find_spec_id, Database};
use crate::ids::{is_uuid_text, parse_uuid, uuid_val};
use crate::json::{parse_error_of, parse_error_text, parse_post, parse_post_text,
    render_feed, render_feed_text, render_post, render_post_text};
use crate::model::PostV;
use crate::shared::{arc_clone, locked_insert, locked_snapshot, share_database,
    SharedDatabase};

verus! {

/// What a handler hands the transport: a status code, a body, and the
/// content-type header once the middleware has set one.
pub struct Response {
    pub status: u16,
    pub body: String,
    pub content_type: Option<String>,
}

/// The content-type value every response carries after the middleware.
pub open spec fn json_content_type() -> Seq<char> {
    "application/json"@
}

/// The create operation on an exclusively held store: decodes the
/// payload, appends the post, echoes the payload back with status 201.
/// A rejected payload leaves the store unchanged and reports 400 with
/// the parse error's message.
///
/// The server trusts the client-supplied `id` and `created_at`: both
/// are taken from the payload as given, and no duplicate check is made.
/// Id uniqueness rests on the caller generating fresh UUIDs.
pub fn create_post(db: &mut Database, payload: &str) -> (r: Response)
    ensures
        match parse_post_text(payload@) {
            Some(p) => final(db)@ == old(db)@.push(p) && r.status == 201 && r.body@ == payload@,
            None => final(db)@ == old(db)@ && r.status == 400 && r.body@ == parse_error_text(
                parse_error_of(payload@),
            ),
        },
        r.content_type is None,
{
    match parse_post(payload) {
        Ok(post) => {
            db.insert_post(post);
            Response { status: 201, body: payload.to_owned(), content_type: None }
        },
        Err(e) => Response { status: 400, body: e.message(), content_type: None },
    }
}

/// The feed operation on a consistent copy of the store: the whole feed,
/// rendered in insertion order, with status 200. Rendering is total, so
/// no failure path exists.
pub fn get_feed(db: &Database) -> (r: Response)
    ensures
        r.status == 200,
        r.body@ == render_feed_text(db@),
        r.content_type is None,
{
    let body = render_feed(db.posts());
    Response { status: 200, body, content_type: None }
}

/// The lookup operation on a consistent copy of the store: 400 with an
/// empty body when the route captured no id, 400 with a message when the
/// id is not a UUID text, 200 with the rendered post when it is found,
/// and 404 with an empty body when it is not.
pub fn get_post(db: &Database, id_param: Option<&str>) -> (r: Response)
    ensures
        match id_param {
            None => r.status == 400 && r.body@ == Seq::<char>::empty(),
            Some(s) => if !is_uuid_text(s@) {
                r.status == 400 && r.body@ == "malformed post id"@
            } else {
                match find_spec(db@, uuid_val(s@)) {
                    Some(p) => r.status == 200 && r.body@ == render_post_text(p),
                    None => r.status == 404 && r.body@ == Seq::<char>::empty(),
                }
            },
        },
        r.content_type is None,
{
    match id_param {
        None => Response { status: 400, body: String::new(), content_type: None },
        Some(s) => match parse_uuid(s) {
            None => Response {
                status: 400,
                body: "malformed post id".to_owned(),
                content_type: None,
            },
            Some(id) => match db.find_by_id(id) {
                Some(post) => Response {
                    status: 200,
                    body: render_post(post),
                    content_type: None,
                },
                None => Response { status: 404, body: String::new(), content_type: None },
            },
        },
    }
}

/// Serves the feed route: reads one consistent copy of the shared store
/// and renders it.
pub struct GetFeedHandler {
    database: SharedDatabase,
}

impl GetFeedHandler {
    /// The lock handle this handler reads the store through.
    pub closed spec fn store(&self) -> SharedDatabase {
        self.database
    }

    pub fn new(database: SharedDatabase) -> (h: GetFeedHandler)
        ensures
            h.store() == database,
    {
        GetFeedHandler { database }
    }

    /// The response is the rendered feed of the posts the store held at
    /// the moment the lock was taken.
    pub fn handle(&self) -> (r: Response)
        ensures
            r.status == 200,
            exists|ps: Seq<PostV>| r.body@ == render_feed_text(ps),
            r.content_type is None,
    {
        let db = locked_snapshot(&self.database);
        let r = get_feed(&db);
        proof {
            assert(r.body@ == render_feed_text(db@));
        }
        r
    }
}

/// Serves the create route: decodes the payload and appends the post to
/// the shared store.
pub struct PostPostHandler {
    database: SharedDatabase,
}

impl PostPostHandler {
    /// The lock handle this handler appends to the store through.
    pub closed spec fn store(&self) -> SharedDatabase {
        self.database
    }

    pub fn new(database: SharedDatabase) -> (h: PostPostHandler)
        ensures
            h.store() == database,
    {
        PostPostHandler { database }
    }

    /// A payload the wire format accepts is inserted and echoed back
    /// with 201; any other payload changes nothing and reports 400 with
    /// the parse error's message.
    pub fn handle(&self, payload: &str) -> (r: Response)
        ensures
            match parse_post_text(payload@) {
                Some(_) => r.status == 201 && r.body@ == payload@,
                None => r.status == 400 && r.body@ == parse_error_text(
                    parse_error_of(payload@),
                ),
            },
            r.content_type is None,
    {
        match parse_post(payload) {
            Ok(post) => {
                locked_insert(&self.database, post);
                Response { status: 201, body: payload.to_owned(), content_type: None }
            },
            Err(e) => Response { status: 400, body: e.message(), content_type: None },
        }
    }
}

/// Serves the post-by-id route: parses the captured id and looks the
/// post up in one consistent copy of the shared store.
pub struct GetPostHandler {
    database: SharedDatabase,
}

impl GetPostHandler {
    /// The lock handle this handler looks posts up through.
    pub closed spec fn store(&self) -> SharedDatabase {
        self.database
    }

    pub fn new(database: SharedDatabase) -> (h: GetPostHandler)
        ensures
            h.store() == database,
    {
        GetPostHandler { database }
    }

    /// The first post carrying this id in the copy read at the moment
    /// the lock was taken, if any.
    pub fn fetch(&self, id: u128) -> (r: Option<crate::model::Post>)
        ensures
            r matches Some(p) ==> p@.id == id,
    {
        let db = locked_snapshot(&self.database);
        proof {
            lemma_find_spec_id(db@, id);
        }
        match db.find_by_id(id) {
            Some(post) => Some(post.clone()),
            None => None,
        }
    }

    /// A missing id reports 400 with an empty body; a non-UUID id 400
    /// with a message; a UUID either 200 with the rendering of a post
    /// carrying that id, or 404 with an empty body.
    pub fn handle(&self, id_param: Option<&str>) -> (r: Response)
        ensures
            match id_param {
                None => r.status == 400 && r.body@ == Seq::<char>::empty(),
                Some(s) => if !is_uuid_text(s@) {
                    r.status == 400 && r.body@ == "malformed post id"@
                } else {
                    (r.status == 200 && (exists|p: PostV|
                        p.id == uuid_val(s@) && r.body@ == render_post_text(p))) || (r.status
                        == 404 && r.body@ == Seq::<char>::empty())
                },
            },
            r.content_type is None,
    {
        let db = locked_snapshot(&self.database);
        let r = get_post(&db, id_param);
        proof {
            match id_param {
                Some(s) => {
                    lemma_find_spec_id(db@, uuid_val(s@));
                },
                None => {},
            }
        }
        r
    }
}

/// The three route handlers, sharing one store behind one lock.
pub struct Handlers {
    pub feed_getter: GetFeedHandler,
    pub post_poster: PostPostHandler,
    pub post_getter: GetPostHandler,
}

impl Handlers {
    /// Wraps the store in a process-wide lock and hands each handler a
    /// handle to it: the three handlers share one and the same lock, so
    /// a post inserted through one is what the others read. Which posts
    /// the lock holds at any moment is not part of its specification:
    /// concurrent callers change them at will.
    pub fn new(database: Database) -> (r: Handlers)
        ensures
            r.feed_getter.store() == r.post_poster.store(),
            r.post_poster.store() == r.post_getter.store(),
    {
        let database = share_database(database);
        Handlers {
            feed_getter: GetFeedHandler::new(arc_clone(&database)),
            post_poster: PostPostHandler::new(arc_clone(&database)),
            post_getter: GetPostHandler::new(database),
        }
    }
}

/// Forces every response's content type to `application/json` after the
/// handler has run, whatever the handler set; status and body are kept.
pub struct JsonContentAfterMiddleWare;

impl JsonContentAfterMiddleWare {
    pub fn after(&self, response: Response) -> (r: Response)
        ensures
            r.status == response.status,
            r.body@ == response.body@,
            r.content_type matches Some(ct) && ct@ == json_content_type(),
    {
        Response {
            status: response.status,
            body: response.body,
            content_type: Some("application/json".to_owned()),
        }
    }
}

} // verus!
