use watchdog::snapshot::{
    servers_of, Author, GlobalData, Guild, Server, Servers, Song, WriteMessage, WriteQueue,
};
use watchdog::archive::{archive_stamp, classify_archive_name, ArchiveName, Stamp};
use watchdog::text::decimal_text;

fn song(t: &str) -> Song {
    Song { title: t.to_string(), url: format!("http://x/{t}"), duration: "3:00".to_string() }
}

fn message() -> WriteMessage {
    WriteMessage {
        guild: Guild { id: "g".to_string(), name: "guild".to_string() },
        author: Author { id: "a".to_string() },
        channelId: "c".to_string(),
        id: "m".to_string(),
    }
}

#[test]
fn servers_follow_queues() {
    let data = GlobalData {
        queues: vec![
            WriteQueue {
                message: message(),
                id: "1".to_string(),
                name: "first".to_string(),
                songs: vec![song("a"), song("b")],
                currentsong: vec![song("a")],
            },
            WriteQueue {
                message: message(),
                id: "2".to_string(),
                name: "second".to_string(),
                songs: vec![],
                currentsong: vec![],
            },
        ],
        disconnectIdles: vec![],
    };
    let servers = servers_of(data);
    assert_eq!(servers.len(), 2);
    assert_eq!(servers.0[0].name, "first");
    assert_eq!(servers.0[0].curr_song.as_ref().map(|s| s.title.clone()), Some("a".to_string()));
    assert_eq!(servers.0[0].songs.len(), 2);
    assert_eq!(servers.0[1].name, "second");
    assert!(servers.0[1].curr_song.is_none());
}

#[test]
fn empty_snapshot_text() {
    assert_eq!(Servers(vec![]).render(), "Not Currently Connected To Any Server\n");
}

#[test]
fn server_listing_text() {
    let s = Server { name: "guild".to_string(), songs: vec![song("a"), song("b")], curr_song: Some(song("a")) };
    assert_eq!(s.waiting(), 1);
    assert_eq!(
        s.render(0),
        "Server #: 1\nServer Name: guild\nCurrent Song:\n    Title: a\n    Duration: 3:00\n    Url: http://x/a\n\
Songs In Queue\n1\n    Title: b\n    Duration: 3:00\n    Url: http://x/b\n"
    );
    let idle = Server { name: "quiet".to_string(), songs: vec![song("a")], curr_song: None };
    assert_eq!(idle.waiting(), 0);
    assert_eq!(
        idle.render(11),
        "Server #: 12\nServer Name: quiet\nCurrent Song: No Song Currently Playing\nSongs In Queue\nNo Other Songs In Queue\n"
    );
    let both = Servers(vec![idle]).render();
    assert!(both.starts_with("Server #: 1\n"));
}

#[test]
fn decimal_digits() {
    assert_eq!(decimal_text(0), "0");
    assert_eq!(decimal_text(907), "907");
    assert_eq!(decimal_text(usize::MAX), usize::MAX.to_string());
}

#[test]
fn archive_names_searched_and_stripped() {
    assert_eq!(classify_archive_name("a log b"), ArchiveName::Archive);
    assert_eq!(classify_archive_name("a lo g"), ArchiveName::Foreign);
    assert_eq!(classify_archive_name("log .DS_Store"), ArchiveName::Ignored);
    let now = Stamp { year: 2000, month: 1, day: 1, hour: 0, minute: 0 };
    // every "log " goes before the date is read
    assert_eq!(
        archive_stamp("log log 07-04-25 18:30", now),
        Stamp { year: 2025, month: 7, day: 4, hour: 18, minute: 30 }
    );
}
