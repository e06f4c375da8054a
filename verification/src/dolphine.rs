//! The settings of one application window and what follows from them: the
//! address the page is opened at, the websocket address, where the page's
//! files come from, and the functions the page may call.

use vstd::prelude::*;
use crate::address::{socket_string, socket_text, IpAddress};
use crate::functions::FunctionStore;
use crate::registry::{DirRegistry, IdCounter};
use crate::text::push_char;

verus! {

/// Where the page's files come from.
#[derive(Clone, Copy, Debug, PartialEq, Eq, Structural)]
pub enum TypeSource {
    /// A folder on disk, named by a path.
    LocalFolder,
    /// A folder embedded in the program, held in the folder registry.
    StaticFolder,
}

/// Where the page's files come from, as the HTTP server sees it.
#[derive(Clone, Debug)]
pub enum Source {
    /// The embedded folder registered for this window id.
    Static(usize),
    /// The folder at this path on disk.
    Local(String),
}

/// Where the answer to a file request comes from.
#[derive(Clone, Debug)]
pub enum FileLookup {
    /// The page's script, with the websocket address appended.
    Script,
    /// The index page of the embedded folder registered for this window id.
    EmbeddedIndex(usize),
    /// The file at this path on disk.
    LocalFile(String),
}

/// What the HTTP server needs to answer requests.
#[derive(Clone, Debug)]
pub struct StateManager {
    pub source: Source,
    /// The path the page's script is served under.
    pub serve_path: String,
    /// The websocket address as a quoted script literal.
    pub websocket_path: String,
}

impl StateManager {
    /// The server state made of its three parts.
    pub fn new(s: Source, s1: String, wp: String) -> (r: StateManager)
        ensures
            r.source == s,
            r.serve_path == s1,
            r.websocket_path == wp,
    {
        StateManager { source: s, serve_path: s1, websocket_path: wp }
    }

    /// Whether a request for `path` is a request for the page's script.
    pub fn serves_script(&self, path: &str) -> (b: bool)
        ensures
            b == (path@ == self.serve_path@),
    {
        let p = String::from_str(path);
        p == self.serve_path
    }

    /// Where the index page comes from: the embedded folder's `index.html`,
    /// or the local folder's path read as a file.
    pub fn index_lookup(&self) -> (r: FileLookup)
        ensures
            self.source matches Source::Static(id) ==> r == FileLookup::EmbeddedIndex(id),
            self.source matches Source::Local(p) ==> r == FileLookup::LocalFile(p),
    {
        match &self.source {
            Source::Static(id) => FileLookup::EmbeddedIndex(*id),
            Source::Local(p) => FileLookup::LocalFile(p.clone()),
        }
    }

    /// Where the answer to a request for `path` comes from: the script where
    /// `path` is the script's path, and otherwise what the index page comes
    /// from (an embedded folder always answers with its `index.html`).
    pub fn file_lookup(&self, path: &str) -> (r: FileLookup)
        ensures
            path@ == self.serve_path@ ==> r == FileLookup::Script,
            path@ != self.serve_path@ ==> (self.source matches Source::Static(id) ==> r
                == FileLookup::EmbeddedIndex(id)),
            path@ != self.serve_path@ ==> (self.source matches Source::Local(p) ==> r
                == FileLookup::LocalFile(p)),
    {
        if self.serves_script(path) {
            FileLookup::Script
        } else {
            self.index_lookup()
        }
    }
}

/// What a window keeps to itself: its id, where its files come from, and
/// the functions its page may call. Only the window's methods change it.
#[derive(Clone, Debug)]
pub struct WindowState<F> {
    source_dynamic: String,
    function_store: FunctionStore<F>,
    source: TypeSource,
    id: usize,
}

/// One application window: where it is served and what it serves.
#[derive(Clone, Debug)]
pub struct Dolphine<F> {
    pub webserver_port: u16,
    pub worker_count: usize,
    pub http_addr: IpAddress,
    pub serve_path: String,
    pub websocket_addr: IpAddress,
    pub websocket_port: u16,
    /// The id, the folder source and the functions.
    pub state: WindowState<F>,
}

/// The websocket address as a script string literal: `"address:port"`.
pub open spec fn websocket_path_text(addr: IpAddress, port: u16) -> Seq<char> {
    seq!['"'] + socket_text(addr, port) + seq!['"']
}

impl<F> Dolphine<F> {
    /// The window's id, which keys its embedded folder in the registry.
    pub closed spec fn spec_id(self) -> usize {
        self.state.id
    }

    /// Where the page's files come from.
    pub closed spec fn spec_source(self) -> TypeSource {
        self.state.source
    }

    /// The path of the local folder (empty while the files are embedded).
    pub closed spec fn spec_source_dynamic(self) -> Seq<char> {
        self.state.source_dynamic@
    }

    /// The functions the page may call.
    pub closed spec fn spec_functions(self) -> Map<Seq<char>, (usize, F)> {
        self.state.function_store@
    }

    /// A window with the next id from `ids` and the default settings: the
    /// page on 127.0.0.1:8000 with one worker, its script under
    /// `dolphine.js`, the websocket on 127.0.0.1:8080, files from an
    /// embedded folder, and no functions.
    pub fn new(ids: &mut IdCounter) -> (r: Self)
        requires
            old(ids)@ < usize::MAX,
        ensures
            final(ids)@ == old(ids)@ + 1,
            r.webserver_port == 8000,
            r.worker_count == 1,
            r.http_addr == IpAddress::V4([127u8, 0u8, 0u8, 1u8]),
            r.serve_path@ == "dolphine.js"@,
            r.websocket_addr == IpAddress::V4([127u8, 0u8, 0u8, 1u8]),
            r.websocket_port == 8080,
            r.spec_functions() == Map::<Seq<char>, (usize, F)>::empty(),
            r.spec_source_dynamic() == Seq::<char>::empty(),
            r.spec_source() == TypeSource::StaticFolder,
            r.spec_id() == old(ids)@,
    {
        let id = ids.issue();
        Dolphine {
            webserver_port: 8000,
            worker_count: 1,
            http_addr: IpAddress::localhost_v4(),
            serve_path: String::from_str("dolphine.js"),
            websocket_addr: IpAddress::localhost_v4(),
            websocket_port: 8080,
            state: WindowState {
                function_store: FunctionStore::new(),
                source_dynamic: String::new(),
                source: TypeSource::StaticFolder,
                id,
            },
        }
    }

    /// The window's id.
    pub fn id(&self) -> (r: usize)
        ensures
            r == self.spec_id(),
    {
        self.state.id
    }

    /// The functions the page may call.
    pub fn function_store(&self) -> (r: &FunctionStore<F>)
        ensures
            r@ == self.spec_functions(),
    {
        &self.state.function_store
    }

    /// The address the page is opened at: `http_addr:webserver_port`.
    pub fn page_address(&self) -> (r: String)
        ensures
            r@ == socket_text(self.http_addr, self.webserver_port),
    {
        socket_string(&self.http_addr, self.webserver_port)
    }

    /// The address the websocket listens on: `websocket_addr:websocket_port`.
    pub fn websocket_address(&self) -> (r: String)
        ensures
            r@ == socket_text(self.websocket_addr, self.websocket_port),
    {
        socket_string(&self.websocket_addr, self.websocket_port)
    }

    /// The websocket address as a quoted script literal.
    pub fn websocket_path(&self) -> (r: String)
        ensures
            r@ == websocket_path_text(self.websocket_addr, self.websocket_port),
    {
        let mut s = String::new();
        push_char(&mut s, '"');
        let a = socket_string(&self.websocket_addr, self.websocket_port);
        s.append(a.as_str());
        push_char(&mut s, '"');
        s
    }

    /// What the HTTP server needs: the folder source (the embedded folder of
    /// this window, or the local folder's path), the script's path, and the
    /// websocket literal.
    pub fn state_manager(&self) -> (r: StateManager)
        ensures
            r.serve_path == self.serve_path,
            r.websocket_path@ == websocket_path_text(self.websocket_addr, self.websocket_port),
            self.spec_source() == TypeSource::StaticFolder ==> r.source == Source::Static(
                self.spec_id(),
            ),
            self.spec_source() == TypeSource::LocalFolder ==> (r.source matches Source::Local(p)
                && p@ == self.spec_source_dynamic()),
    {
        let wp = self.websocket_path();
        let source = match self.state.source {
            TypeSource::StaticFolder => Source::Static(self.state.id),
            TypeSource::LocalFolder => Source::Local(self.state.source_dynamic.clone()),
        };
        StateManager::new(source, self.serve_path.clone(), wp)
    }

    /// Serves the page from the folder at path `dir` on disk; the window's
    /// embedded folder, if any, leaves the registry.
    pub fn set_local_file_directory<V>(&mut self, dirs: &mut DirRegistry<V>, dir: String)
        ensures
            final(self).spec_source() == TypeSource::LocalFolder,
            final(self).spec_source_dynamic() == dir@,
            final(dirs)@ == old(dirs)@.remove(old(self).spec_id()),
            final(self).spec_id() == old(self).spec_id(),
            final(self).spec_functions() == old(self).spec_functions(),
            final(self).webserver_port == old(self).webserver_port,
            final(self).worker_count == old(self).worker_count,
            final(self).http_addr == old(self).http_addr,
            final(self).serve_path == old(self).serve_path,
            final(self).websocket_addr == old(self).websocket_addr,
            final(self).websocket_port == old(self).websocket_port,
    {
        self.state.source = TypeSource::LocalFolder;
        dirs.remove(self.state.id);
        self.state.source_dynamic = dir;
    }

    /// Serves the page from the embedded folder `dir`, which the registry
    /// now holds under the window's id.
    pub fn set_static_file_directory<V>(&mut self, dirs: &mut DirRegistry<V>, dir: V)
        ensures
            final(self).spec_source() == TypeSource::StaticFolder,
            final(self).spec_source_dynamic() == Seq::<char>::empty(),
            final(dirs)@ == old(dirs)@.insert(old(self).spec_id(), dir),
            final(self).spec_id() == old(self).spec_id(),
            final(self).spec_functions() == old(self).spec_functions(),
            final(self).webserver_port == old(self).webserver_port,
            final(self).worker_count == old(self).worker_count,
            final(self).http_addr == old(self).http_addr,
            final(self).serve_path == old(self).serve_path,
            final(self).websocket_addr == old(self).websocket_addr,
            final(self).websocket_port == old(self).websocket_port,
    {
        self.state.source = TypeSource::StaticFolder;
        self.state.source_dynamic = String::new();
        dirs.insert(self.state.id, dir);
    }

    /// Lets the page call `function`, which takes `num_args` arguments,
    /// under `name`; a function registered before under that name is replaced.
    pub fn register_function(&mut self, name: String, function: F, num_args: usize)
        ensures
            final(self).spec_functions() == old(self).spec_functions().insert(
                name@,
                (num_args, function),
            ),
            final(self).spec_id() == old(self).spec_id(),
            final(self).spec_source() == old(self).spec_source(),
            final(self).spec_source_dynamic() == old(self).spec_source_dynamic(),
            final(self).webserver_port == old(self).webserver_port,
            final(self).worker_count == old(self).worker_count,
            final(self).http_addr == old(self).http_addr,
            final(self).serve_path == old(self).serve_path,
            final(self).websocket_addr == old(self).websocket_addr,
            final(self).websocket_port == old(self).websocket_port,
    {
        self.state.function_store.register(name, num_args, function);
    }
}

} // verus!
