//! The status snapshot: the queues recorded in the service's state file,
//! and the per-server view printed for the operator.
use vstd::prelude::*;
use crate::text::{decimal, decimal_text, joined};

verus! {

pub struct Song {
    pub title: String,
    pub url: String,
    pub duration: String,
}

pub struct Guild {
    pub id: String,
    pub name: String,
}

pub struct Author {
    pub id: String,
}

#[allow(non_snake_case)]
pub struct WriteMessage {
    pub guild: Guild,
    pub author: Author,
    pub channelId: String,
    pub id: String,
}

/// One queue as the state file records it; `currentsong` holds the song
/// being played.
pub struct WriteQueue {
    pub message: WriteMessage,
    pub id: String,
    pub name: String,
    pub songs: Vec<Song>,
    pub currentsong: Vec<Song>,
}

pub struct WriteIdle {
    pub message: WriteMessage,
    pub id: String,
}

#[allow(non_snake_case)]
pub struct GlobalData {
    pub queues: Vec<WriteQueue>,
    pub disconnectIdles: Vec<WriteIdle>,
}

/// One server: its name, its queue, and the song it is playing.
pub struct Server {
    pub name: String,
    pub songs: Vec<Song>,
    pub curr_song: Option<Song>,
}

pub struct Servers(pub Vec<Server>);

/// The song a queue is playing: the last one its record names.
pub open spec fn playing(current: Seq<Song>) -> Option<Song> {
    if current.len() == 0 {
        None
    } else {
        Some(current.last())
    }
}

/// Whether `s` is the server view of queue `q`.
pub open spec fn server_of(q: WriteQueue, s: Server) -> bool {
    &&& s.name@ == q.name@
    &&& s.songs@ == q.songs@
    &&& s.curr_song == playing(q.currentsong@)
}

/// One server per queue of the snapshot, in the snapshot's order.
pub fn servers_of(data: GlobalData) -> (r: Servers)
    ensures
        r.0.len() == data.queues.len(),
        forall|i: int| 0 <= i < r.0.len() ==> server_of(data.queues@[i], #[trigger] r.0@[i]),
{
    let ghost queues = data.queues@;
    let mut rest = data.queues;
    let mut servers: Vec<Server> = Vec::new();
    while rest.len() > 0
        invariant
            servers.len() + rest.len() == queues.len(),
            rest@ == queues.skip(servers.len() as int),
            forall|i: int| 0 <= i < servers.len() ==> server_of(queues[i], #[trigger] servers@[i]),
        decreases rest.len(),
    {
        let ghost k = servers.len() as int;
        let q = rest.remove(0);
        assert(q == queues[k]);
        let WriteQueue { name, songs, currentsong, .. } = q;
        let mut currentsong = currentsong;
        let curr_song = currentsong.pop();
        servers.push(Server { name, songs, curr_song });
        assert(rest@ =~= queues.skip(servers.len() as int));
    }
    Servers(servers)
}

/// A song under the heading `head`: title, duration and address, each on
/// an indented line of its own.
pub open spec fn song_block(head: Seq<char>, s: Song) -> Seq<char> {
    head + "\n    Title: "@ + s.title@ + "\n    Duration: "@ + s.duration@ + "\n    Url: "@ + s.url@ + "\n"@
}

/// The songs at positions `1..n` of a queue, each headed by its position.
pub open spec fn waiting_text(songs: Seq<Song>, n: nat) -> Seq<char>
    decreases n,
{
    if n <= 1 {
        Seq::empty()
    } else {
        waiting_text(songs, (n - 1) as nat) + song_block(decimal((n - 1) as nat), songs[n - 1])
    }
}

/// The listing of the server at position `i` of the snapshot, numbered
/// from one.
pub open spec fn server_text(s: Server, i: nat) -> Seq<char> {
    let head = "Server #: "@ + decimal(i + 1) + "\nServer Name: "@ + s.name@ + "\n"@;
    let current = match s.curr_song {
        Some(c) => song_block("Current Song:"@, c),
        None => "Current Song: No Song Currently Playing\n"@,
    };
    let queue = if s.songs.len() > 1 {
        waiting_text(s.songs@, s.songs.len() as nat)
    } else {
        "No Other Songs In Queue\n"@
    };
    head + current + "Songs In Queue\n"@ + queue
}

/// The listings of the servers at positions `0..n`.
pub open spec fn servers_text(servers: Seq<Server>, n: nat) -> Seq<char>
    decreases n,
{
    if n == 0 {
        Seq::empty()
    } else {
        servers_text(servers, (n - 1) as nat) + server_text(servers[n - 1], (n - 1) as nat)
    }
}

/// What the operator is shown for the snapshot `servers`.
pub open spec fn snapshot_text(servers: Seq<Server>) -> Seq<char> {
    if servers.len() == 0 {
        "Not Currently Connected To Any Server\n"@
    } else {
        servers_text(servers, servers.len() as nat)
    }
}

fn song_text(head: &str, s: &Song) -> (r: String)
    ensures
        r@ == song_block(head@, *s),
{
    let mut r = joined(head, "\n    Title: ");
    r.append(s.title.as_str());
    r.append("\n    Duration: ");
    r.append(s.duration.as_str());
    r.append("\n    Url: ");
    r.append(s.url.as_str());
    r.append("\n");
    r
}

impl Server {
    /// How many songs wait behind the first of the queue.
    pub fn waiting(&self) -> (n: usize)
        ensures
            n == if self.songs.len() > 1 { self.songs.len() - 1 } else { 0 },
    {
        if self.songs.len() > 1 {
            self.songs.len() - 1
        } else {
            0
        }
    }

    /// This server's listing as the server at position `i`.
    pub fn render(&self, i: usize) -> (r: String)
        requires
            i < usize::MAX,
        ensures
            r@ == server_text(*self, i as nat),
    {
        let mut r = joined("Server #: ", decimal_text(i + 1).as_str());
        r.append("\nServer Name: ");
        r.append(self.name.as_str());
        r.append("\n");
        match &self.curr_song {
            Some(c) => {
                let block = song_text("Current Song:", c);
                r.append(block.as_str());
            },
            None => r.append("Current Song: No Song Currently Playing\n"),
        }
        r.append("Songs In Queue\n");
        if self.songs.len() > 1 {
            let mut k: usize = 1;
            let ghost start = r@;
            assert(waiting_text(self.songs@, 1) =~= Seq::<char>::empty());
            while k < self.songs.len()
                invariant
                    1 <= k <= self.songs.len(),
                    r@ == start + waiting_text(self.songs@, k as nat),
                decreases self.songs.len() - k,
            {
                let block = song_text(decimal_text(k).as_str(), &self.songs[k]);
                r.append(block.as_str());
                k = k + 1;
            }
        } else {
            r.append("No Other Songs In Queue\n");
        }
        r
    }
}

impl Servers {
    pub fn len(&self) -> (n: usize)
        ensures
            n == self.0.len(),
    {
        self.0.len()
    }

    /// What the operator is shown for this snapshot.
    pub fn render(&self) -> (r: String)
        ensures
            r@ == snapshot_text(self.0@),
    {
        if self.0.len() == 0 {
            return "Not Currently Connected To Any Server\n".to_owned();
        }
        let mut r = String::new();
        let mut i: usize = 0;
        assert(servers_text(self.0@, 0) =~= Seq::<char>::empty());
        while i < self.0.len()
            invariant
                i <= self.0.len(),
                r@ == servers_text(self.0@, i as nat),
            decreases self.0.len() - i,
        {
            let block = self.0[i].render(i);
            r.append(block.as_str());
            i = i + 1;
        }
        r
    }
}

} // verus!
