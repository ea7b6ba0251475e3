//! What a connection answers, decided one step at a time.
//!
//! The handler never touches the file system or runs a program itself: each
//! step returns an [`Action`] for the caller to perform, and the caller hands
//! back what came of it as an [`Event`].
use vstd::prelude::*;
use crate::cgi::Cgi;
use crate::config::Config;
use crate::log::{missing_message, missing_text, request_message, request_text, Category};
use crate::menu::{menu_text, Entry, Menu, item_for};
use crate::path::{has_cgi_bin, is_cgi_path, program_part, query_part, resolve, resolved, split_query};
use crate::text::{decoded, decodes, from_utf8_lossy, lossy_text, trim, trimmed, url_decode};
use vstd::utf8::encode_utf8;

verus! {

/// Where an exchange stands.
#[derive(Clone, Copy, Debug, PartialEq, Eq, Structural)]
pub enum Phase {
    /// The request has arrived; its log record is due.
    Start,
    /// Waiting to learn whether the path is a directory.
    Directory,
    /// Waiting to learn whether the directory holds a `gophermap` file.
    Gophermap,
    /// Waiting for the `gophermap` file's contents.
    MapContents,
    /// Waiting for the directory's listing.
    Listing,
    /// Waiting to learn whether the decoded path is a file.
    File,
    /// Waiting for a script's output or a file's contents.
    Contents,
    /// The request named nothing; its error record is due.
    Missing,
    /// The exchange is over.
    Done,
}

/// What the caller is asked to do next.
pub enum Action {
    /// Write a log record.
    Log(Category, String),
    /// Tell whether this path is a directory.
    IsDirectory(String),
    /// Tell whether this path is a regular file.
    IsFile(String),
    /// Read this file.
    Read(String),
    /// List this directory.
    List(String),
    /// Run this script and hand back what it wrote to standard output.
    Run(Cgi),
    /// Send these bytes and close the connection.
    Reply(Vec<u8>),
    /// Close the connection without an answer.
    Abort,
}

/// What came of an action.
pub enum Event {
    /// The log record was written.
    Logged,
    /// The answer to `IsDirectory` or `IsFile`.
    Answer(bool),
    /// The bytes that were read, or that the script wrote.
    Contents(Vec<u8>),
    /// The entries of the listed directory.
    Listing(Vec<Entry>),
}

/// One request on one connection.
pub struct Exchange {
    /// The address of the peer.
    pub address: String,
    /// The request as it arrived.
    pub request: String,
    /// The path the request resolves to.
    pub path: String,
    /// Where the exchange stands.
    pub phase: Phase,
}

/// The path of a directory's `gophermap` file.
pub open spec fn gophermap_path(dir: Seq<char>) -> Seq<char> {
    dir + "/gophermap"@
}

/// The line that ends a menu or a `gophermap`, as bytes.
pub open spec fn end_bytes() -> Seq<u8> {
    seq![46u8, 13u8, 10u8]
}

/// The answer to a request that names nothing.
pub open spec fn not_found_text(request: Seq<char>) -> Seq<char> {
    "3 "@ + trimmed(request)
        + " doesn't exist!\terror.host\t1\r\ni This resource cannot be located.\terror.host\t1\r\n.\r\n"@
}

/// The menu answer for a listing: some menu with one item per entry, in
/// order, each as [`item_for`] describes it, and the bytes of its text.
pub open spec fn is_listing_answer(
    request: Seq<char>,
    entries: Seq<Entry>,
    config: Config,
    out: Seq<u8>,
) -> bool {
    exists|menu: Menu|
        {
            &&& menu.items@.len() == entries.len()
            &&& forall|k: int|
                0 <= k < entries.len() ==> item_for(request, #[trigger] entries[k], config, menu.items@[k])
            &&& out == encode_utf8(menu_text(menu.items@))
        }
}

/// What a step from `ex` on `event` leads to: the next phase and the action.
pub open spec fn stepped(ex: Exchange, config: Config, event: Event, phase: Phase, r: Action) -> bool {
    let path = ex.path@;
    let request = ex.request@;
    match (ex.phase, event) {
        (Phase::Start, Event::Logged) => {
            &&& phase == Phase::Directory
            &&& (r matches Action::IsDirectory(p) && p@ == path)
        },
        (Phase::Directory, Event::Answer(true)) => {
            &&& phase == Phase::Gophermap
            &&& (r matches Action::IsFile(p) && p@ == gophermap_path(path))
        },
        (Phase::Directory, Event::Answer(false)) => if decodes(path) {
            &&& phase == Phase::File
            &&& (r matches Action::IsFile(p) && p@ == program_part(decoded(path)))
        } else {
            &&& phase == Phase::Done
            &&& r is Abort
        },
        (Phase::Gophermap, Event::Answer(true)) => {
            &&& phase == Phase::MapContents
            &&& (r matches Action::Read(p) && p@ == gophermap_path(path))
        },
        (Phase::Gophermap, Event::Answer(false)) => {
            &&& phase == Phase::Listing
            &&& (r matches Action::List(p) && p@ == path)
        },
        (Phase::MapContents, Event::Contents(b)) => {
            &&& phase == Phase::Done
            &&& (r matches Action::Reply(out) && out@ == b@ + end_bytes())
        },
        (Phase::Listing, Event::Listing(entries)) => {
            &&& phase == Phase::Done
            &&& (r matches Action::Reply(out) && is_listing_answer(request, entries@, config, out@))
        },
        (Phase::File, Event::Answer(true)) => if has_cgi_bin(path) && decodes(path) {
            &&& phase == Phase::Contents
            &&& (r matches Action::Run(c) && c.program@ == program_part(decoded(path))
                && c.query_string@ == query_part(decoded(path)))
        } else if has_cgi_bin(path) {
            &&& phase == Phase::Done
            &&& r is Abort
        } else {
            &&& phase == Phase::Contents
            &&& (r matches Action::Read(p) && p@ == path)
        },
        (Phase::File, Event::Answer(false)) => {
            &&& phase == Phase::Missing
            &&& (r matches Action::Log(c, m) && c == Category::Error
                && m@ == missing_text(ex.address@, request))
        },
        (Phase::Contents, Event::Contents(b)) => {
            &&& phase == Phase::Done
            &&& (r matches Action::Reply(out) && out@ == b@)
        },
        (Phase::Missing, Event::Logged) => {
            &&& phase == Phase::Done
            &&& (r matches Action::Reply(out) && out@ == encode_utf8(not_found_text(request)))
        },
        _ => {
            &&& phase == Phase::Done
            &&& r is Abort
        },
    }
}

/// The text of a request line: its bytes decoded as UTF-8, with invalid
/// sequences replaced; `None` where nothing was received.
pub fn parse_request(data: &[u8]) -> (r: Option<String>)
    ensures
        data@.len() == 0 <==> r is None,
        r is Some ==> r->Some_0@ == lossy_text(data@),
{
    if data.len() == 0 {
        None
    } else {
        Some(from_utf8_lossy(data))
    }
}

/// The answer to a request that names nothing: an error item and an
/// information item, then the `.` line.
pub fn not_found_response(request: &str) -> (r: Vec<u8>)
    ensures
        r@ == encode_utf8(not_found_text(request@)),
{
    let mut out = String::from_str("3 ");
    out.append(trim(request));
    out.append(
        " doesn't exist!\terror.host\t1\r\ni This resource cannot be located.\terror.host\t1\r\n.\r\n",
    );
    assert(out@ =~= not_found_text(request@));
    out.as_str().as_bytes_vec()
}

/// The answer for a directory with a `gophermap` file: its bytes, then the
/// `.` line.
pub fn gophermap_response(contents: Vec<u8>) -> (r: Vec<u8>)
    ensures
        r@ == contents@ + end_bytes(),
{
    let mut out = contents;
    out.push(46u8);
    out.push(13u8);
    out.push(10u8);
    assert(out@ =~= contents@ + end_bytes());
    out
}

/// The answer for a directory without a `gophermap` file: its menu.
pub fn listing_response(request: &str, entries: &Vec<Entry>, config: &Config) -> (r: Vec<u8>)
    ensures
        is_listing_answer(request@, entries@, *config, r@),
{
    let menu = Menu::from_entries(request, entries, config);
    menu.to_bytes()
}

impl Exchange {
    /// Starts the exchange for `request` from `address`: the path is resolved
    /// against the root and the request's log record is asked for.
    pub fn start(config: &Config, request: &str, address: &str) -> (r: (Exchange, Action))
        ensures
            r.0.phase == Phase::Start,
            r.0.request@ == request@,
            r.0.address@ == address@,
            r.0.path@ == resolved(config.root@, request@),
            r.1 matches Action::Log(c, m) && c == Category::Request && m@ == request_text(
                address@,
                request@,
            ),
    {
        let path = resolve(config.root.as_str(), request);
        let message = request_message(address, request);
        let ex = Exchange {
            address: String::from_str(address),
            request: String::from_str(request),
            path,
            phase: Phase::Start,
        };
        (ex, Action::Log(Category::Request, message))
    }

    /// Takes in what came of the last action and returns the next one.
    ///
    /// A directory is answered with its `gophermap` file and the `.` line
    /// where it has one, else with its menu. Otherwise the path is
    /// percent-decoded and cut at its first `?`; where that names a file, a
    /// script is run if the path has a `cgi-bin` segment, else the file is
    /// read, and either is sent as it is. Where it names nothing, the error
    /// record is asked for and then the not-found answer. A path that does
    /// not decode, or an event that does not fit the phase, ends the exchange
    /// without an answer.
    pub fn step(&mut self, config: &Config, event: Event) -> (r: Action)
        ensures
            final(self).address == old(self).address,
            final(self).request == old(self).request,
            final(self).path == old(self).path,
            stepped(*old(self), *config, event, final(self).phase, r),
    {
        let phase = self.phase;
        match (phase, event) {
            (Phase::Start, Event::Logged) => {
                self.phase = Phase::Directory;
                Action::IsDirectory(self.path.clone())
            },
            (Phase::Directory, Event::Answer(true)) => {
                let mut map = self.path.clone();
                map.append("/gophermap");
                self.phase = Phase::Gophermap;
                Action::IsFile(map)
            },
            (Phase::Directory, Event::Answer(false)) => {
                match url_decode(self.path.as_str()) {
                    Ok(d) => {
                        let (program, _query) = split_query(d.as_str());
                        self.phase = Phase::File;
                        Action::IsFile(program)
                    },
                    Err(_) => {
                        self.phase = Phase::Done;
                        Action::Abort
                    },
                }
            },
            (Phase::Gophermap, Event::Answer(true)) => {
                let mut map = self.path.clone();
                map.append("/gophermap");
                self.phase = Phase::MapContents;
                Action::Read(map)
            },
            (Phase::Gophermap, Event::Answer(false)) => {
                self.phase = Phase::Listing;
                Action::List(self.path.clone())
            },
            (Phase::MapContents, Event::Contents(b)) => {
                self.phase = Phase::Done;
                Action::Reply(gophermap_response(b))
            },
            (Phase::Listing, Event::Listing(entries)) => {
                self.phase = Phase::Done;
                Action::Reply(listing_response(self.request.as_str(), &entries, config))
            },
            (Phase::File, Event::Answer(true)) => {
                if is_cgi_path(self.path.as_str()) {
                    match Cgi::new(self.path.as_str()) {
                        Some(c) => {
                            self.phase = Phase::Contents;
                            Action::Run(c)
                        },
                        None => {
                            self.phase = Phase::Done;
                            Action::Abort
                        },
                    }
                } else {
                    self.phase = Phase::Contents;
                    Action::Read(self.path.clone())
                }
            },
            (Phase::File, Event::Answer(false)) => {
                self.phase = Phase::Missing;
                Action::Log(
                    Category::Error,
                    missing_message(self.address.as_str(), self.request.as_str()),
                )
            },
            (Phase::Contents, Event::Contents(b)) => {
                self.phase = Phase::Done;
                Action::Reply(b)
            },
            (Phase::Missing, Event::Logged) => {
                self.phase = Phase::Done;
                Action::Reply(not_found_response(self.request.as_str()))
            },
            _ => {
                self.phase = Phase::Done;
                Action::Abort
            },
        }
    }
}

} // verus!
