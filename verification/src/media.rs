//! What the platform media backend reports about the currently playing track.

use vstd::prelude::*;

verus! {

/// Snapshot of the currently playing media. `elapsed` is the position as of `fetched_at`, not
/// a live value; a `duration` of zero means unknown. Both are in nanoseconds.
#[derive(Debug)]
pub struct NowPlayingInfo {
    pub title: String,
    pub artist: String,
    pub playing: bool,
    pub elapsed: u128,
    pub duration: u128,
    pub fetched_at: std::time::Instant,
}

impl Clone for NowPlayingInfo {
    fn clone(&self) -> (r: Self)
        ensures
            r == *self,
    {
        NowPlayingInfo {
            title: self.title.clone(),
            artist: self.artist.clone(),
            playing: self.playing,
            elapsed: self.elapsed,
            duration: self.duration,
            fetched_at: self.fetched_at.clone(),
        }
    }
}

} // verus!

verus! {

#[verifier::external_type_specification]
#[verifier::external_body]
#[verifier::reject_recursive_types(T)]
pub struct ExReceiver<T>(std::sync::mpsc::Receiver<T>);

/// Every update waiting on the channel, oldest first, without blocking
/// (`Receiver::try_iter`). Trusted with no claim: what has arrived depends on the polling
/// thread's timing.
#[verifier::external_body]
fn drain_pending<T>(rx: &std::sync::mpsc::Receiver<T>) -> (r: Vec<T>) {
    rx.try_iter().collect()
}

/// The newest of a batch of updates, if there is any.
pub fn latest<T>(updates: Vec<T>) -> (r: Option<T>)
    ensures
        updates@.len() == 0 ==> r is None,
        updates@.len() > 0 ==> r == Some(updates@.last()),
{
    let mut v = updates;
    v.pop()
}

/// The receiving end of the media polling thread: the thread sends a fresh snapshot (or
/// `None` when nothing is playing) on every poll.
pub struct MediaWatcher {
    rx: std::sync::mpsc::Receiver<Option<NowPlayingInfo>>,
}

impl MediaWatcher {
    /// The channel the watcher reads snapshots from.
    pub closed spec fn receiver(self) -> std::sync::mpsc::Receiver<Option<NowPlayingInfo>> {
        self.rx
    }

    /// A watcher reading the snapshots sent on `rx`.
    pub fn from_receiver(rx: std::sync::mpsc::Receiver<Option<NowPlayingInfo>>) -> (r: Self)
        ensures
            r.receiver() == rx,
    {
        MediaWatcher { rx }
    }

    /// Non-blocking: the most recent snapshot if any arrived since the last call, older ones
    /// being dropped since only the latest matters for drawing.
    pub fn try_recv(&self) -> (r: Option<Option<NowPlayingInfo>>) {
        latest(drain_pending(&self.rx))
    }
}


/// The bus-name prefix of MPRIS2 media players.
pub open spec fn mpris_prefix() -> Seq<char> {
    "org.mpris.MediaPlayer2."@
}

pub open spec fn starts_with(s: Seq<char>, p: Seq<char>) -> bool {
    p.len() <= s.len() && s.subrange(0, p.len() as int) == p
}

/// The first name that starts with `p`, if any.
pub open spec fn first_with_prefix(names: Seq<Seq<char>>, p: Seq<char>) -> Option<Seq<char>>
    decreases names.len(),
{
    if names.len() == 0 {
        None
    } else if starts_with(names[0], p) {
        Some(names[0])
    } else {
        first_with_prefix(names.drop_first(), p)
    }
}

fn has_prefix(s: &Vec<char>, p: &Vec<char>) -> (r: bool)
    ensures
        r == starts_with(s@, p@),
{
    if p.len() > s.len() {
        return false;
    }
    let mut i: usize = 0;
    while i < p.len()
        invariant
            p@.len() <= s@.len(),
            i <= p@.len(),
            forall|k: int| 0 <= k < i ==> s@[k] == p@[k],
        decreases p@.len() - i,
    {
        if s[i] != p[i] {
            assert(s@.subrange(0, p@.len() as int)[i as int] != p@[i as int]);
            return false;
        }
        i = i + 1;
    }
    assert(s@.subrange(0, p@.len() as int) =~= p@);
    true
}

/// The first MPRIS2 player among the names registered on the bus; only ever the first, since
/// MPRIS2 has no notion of an active player.
pub fn first_mpris_player(names: &Vec<String>) -> (r: Option<String>)
    ensures
        (match r {
            Some(n) => Some(n@),
            None => None,
        }) == first_with_prefix(crate::text::string_views(names@), mpris_prefix()),
{
    let p = crate::text::chars_of("org.mpris.MediaPlayer2.");
    let ghost views = crate::text::string_views(names@);
    let mut i: usize = 0;
    proof {
        assert(views.subrange(0, views.len() as int) =~= views);
    }
    while i < names.len()
        invariant
            i <= names@.len(),
            p@ == mpris_prefix(),
            views == crate::text::string_views(names@),
            first_with_prefix(views, mpris_prefix()) == first_with_prefix(
                views.subrange(i as int, views.len() as int),
                mpris_prefix(),
            ),
        decreases names@.len() - i,
    {
        let ghost rest = views.subrange(i as int, views.len() as int);
        proof {
            assert(rest.drop_first() =~= views.subrange(i + 1, views.len() as int));
            assert(rest[0] == names@[i as int]@);
        }
        let n = crate::text::chars_of(names[i].as_str());
        if has_prefix(&n, &p) {
            return Some(names[i].clone());
        }
        i = i + 1;
    }
    None
}

/// The snapshot built from what an MPRIS2 player reports: nothing without a nonempty title;
/// the first listed artist or none; positions in microseconds, negatives as zero.
pub open spec fn snapshot_of(
    status: Seq<char>,
    title: Option<String>,
    artists: Option<Seq<String>>,
    length_micros: Option<i64>,
    position_micros: i64,
) -> Option<(Seq<char>, Seq<char>, bool, int, int)> {
    match title {
        Some(t) => if t@.len() > 0 {
            Some((
                t@,
                match artists {
                    Some(a) => if a.len() > 0 { a[0]@ } else { Seq::empty() },
                    None => Seq::empty(),
                },
                status == "Playing"@,
                if position_micros < 0 { 0 } else { position_micros * 1000 },
                match length_micros {
                    Some(l) => if l < 0 { 0 } else { l * 1000 },
                    None => 0,
                },
            ))
        } else {
            None
        },
        None => None,
    }
}

/// Builds the now-playing snapshot from a player's reported properties.
pub fn now_playing_from_player(
    status: &str,
    title: Option<String>,
    artists: Option<Vec<String>>,
    length_micros: Option<i64>,
    position_micros: i64,
    fetched_at: std::time::Instant,
) -> (r: Option<NowPlayingInfo>)
    ensures
        (match r {
            Some(i) => Some((i.title@, i.artist@, i.playing, i.elapsed as int, i.duration as int)),
            None => None,
        }) == snapshot_of(status@, title, match artists {
            Some(a) => Some(a@),
            None => None,
        }, length_micros, position_micros),
        r matches Some(i) ==> i.fetched_at == fetched_at,
{
    let title = match title {
        Some(t) => t,
        None => return None,
    };
    if title.as_str().unicode_len() == 0 {
        return None;
    }
    let artist = match artists {
        Some(a) => if a.len() > 0 { a[0].clone() } else { String::new() },
        None => String::new(),
    };
    let playing = crate::text::chars_eq(&crate::text::chars_of(status), "Playing");
    let elapsed: u128 = if position_micros < 0 { 0 } else { position_micros as u128 * 1000 };
    let duration: u128 = match length_micros {
        Some(l) => if l < 0 { 0 } else { l as u128 * 1000 },
        None => 0,
    };
    Some(NowPlayingInfo { title, artist, playing, elapsed, duration, fetched_at })
}

} // verus!
