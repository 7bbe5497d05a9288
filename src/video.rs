use vstd::prelude::*;
use crate::bytes::copy_bytes;

verus! {

/// The chunks of one transport-stream segment, with the chunk count that the
/// uploader announced for it.
#[derive(Clone, Debug, Default)]
pub struct SegmentInfo {
    pub chunks: Vec<Vec<u8>>,
    pub total_chunk_count: u32,
}

/// One chunk of a segment, with the segment's announced chunk count.
#[derive(Clone, Debug)]
pub struct SegmentChunkResponse {
    pub segment_chunk_data: Vec<u8>,
    pub total_chunk_count: u32,
}

/// The announced chunk count of the segment at position `segment_id`.
#[derive(Clone, Debug)]
pub struct SegmentChunkInfo {
    pub segment_id: u32,
    pub total_chunk_count: u32,
}

/// Why a lookup in the store failed.
#[derive(Clone, Copy, Debug, PartialEq, Eq, Structural)]
pub enum StoreError {
    VideoNotFound,
    ChunkNotFound,
    SegmentNotFound,
    PlaylistNotFound,
    ThumbnailNotFound,
}

/// A stored video: its metadata, a flat list of chunks, and a list of
/// segments that are themselves uploaded in chunks.
struct Video {
    id: String,
    title: String,
    description: String,
    hash: String,
    version: String,
    playlist: Option<String>,
    thumbnail: Option<Vec<u8>>,
    chunks: Vec<Vec<u8>>,
    segments: Vec<SegmentInfo>,
}

/// A segment as the contracts see it.
pub struct SegmentView {
    pub chunks: Seq<Seq<u8>>,
    pub total_chunk_count: u32,
}

/// A stored video as the contracts see it; its id is the key it is stored under.
pub struct VideoView {
    pub title: Seq<char>,
    pub description: Seq<char>,
    pub hash: Seq<char>,
    pub version: Seq<char>,
    pub playlist: Option<Seq<char>>,
    pub thumbnail: Option<Seq<u8>>,
    pub chunks: Seq<Seq<u8>>,
    pub segments: Seq<SegmentView>,
}

/// The contents of each chunk of a chunk list.
pub open spec fn bytes_seq(v: Seq<Vec<u8>>) -> Seq<Seq<u8>> {
    v.map_values(|c: Vec<u8>| c@)
}

impl View for SegmentInfo {
    type V = SegmentView;

    open spec fn view(&self) -> SegmentView {
        SegmentView { chunks: bytes_seq(self.chunks@), total_chunk_count: self.total_chunk_count }
    }
}

/// The contents of an optional text.
pub open spec fn opt_text(o: Option<String>) -> Option<Seq<char>> {
    match o {
        Some(s) => Some(s@),
        None => None,
    }
}

/// The contents of an optional byte string.
pub open spec fn opt_bytes(o: Option<Vec<u8>>) -> Option<Seq<u8>> {
    match o {
        Some(b) => Some(b@),
        None => None,
    }
}

impl View for Video {
    type V = VideoView;

    closed spec fn view(&self) -> VideoView {
        VideoView {
            title: self.title@,
            description: self.description@,
            hash: self.hash@,
            version: self.version@,
            playlist: opt_text(self.playlist),
            thumbnail: opt_bytes(self.thumbnail),
            chunks: bytes_seq(self.chunks@),
            segments: self.segments@.map_values(|s: SegmentInfo| s@),
        }
    }
}

/// A video as it stands right after it was created.
pub open spec fn fresh_video(version: Seq<char>, title: Seq<char>, description: Seq<char>) -> VideoView {
    VideoView {
        title,
        description,
        hash: Seq::empty(),
        version,
        playlist: None,
        thumbnail: None,
        chunks: Seq::empty(),
        segments: Seq::empty(),
    }
}

/// `s` lengthened with copies of `fill` until it holds at least `n` items.
pub open spec fn padded<T>(s: Seq<T>, n: nat, fill: T) -> Seq<T> {
    if s.len() < n {
        s + Seq::new((n - s.len()) as nat, |_i: int| fill)
    } else {
        s
    }
}

/// `s` with `x` stored at position `i`, empty items filling any gap before it.
pub open spec fn put_chunk(s: Seq<Seq<u8>>, i: nat, x: Seq<u8>) -> Seq<Seq<u8>> {
    padded(s, i + 1, Seq::empty()).update(i as int, x)
}

/// Storing `x` at position `i` of a chunk list: it reads back at `i`, the
/// other chunks stay, and any gap before `i` holds empty chunks.
pub proof fn lemma_put_chunk(s: Seq<Seq<u8>>, i: nat, x: Seq<u8>)
    ensures
        put_chunk(s, i, x).len() == if i < s.len() { s.len() } else { i + 1 },
        put_chunk(s, i, x)[i as int] == x,
        forall|j: int| 0 <= j < s.len() && j != i ==> #[trigger] put_chunk(s, i, x)[j] == s[j],
        forall|j: int| s.len() <= j < i ==> #[trigger] put_chunk(s, i, x)[j] == Seq::<u8>::empty(),
{
}

/// A segment with no chunks and no announced count.
pub open spec fn empty_segment() -> SegmentView {
    SegmentView { chunks: Seq::empty(), total_chunk_count: 0 }
}

/// A segment after chunk `ci` was stored in it: the announced count is set
/// by the first upload that finds it at zero.
pub open spec fn put_segment_chunk(seg: SegmentView, ci: nat, total: u32, x: Seq<u8>) -> SegmentView {
    SegmentView {
        chunks: put_chunk(seg.chunks, ci, x),
        total_chunk_count: if seg.total_chunk_count == 0 { total } else { seg.total_chunk_count },
    }
}

/// The segments after chunk `ci` of segment `si` was stored.
pub open spec fn put_segments_chunk(
    segs: Seq<SegmentView>,
    si: nat,
    ci: nat,
    total: u32,
    x: Seq<u8>,
) -> Seq<SegmentView> {
    let p = padded(segs, si + 1, empty_segment());
    p.update(si as int, put_segment_chunk(p[si as int], ci, total, x))
}

/// The decimal digits of `n`, most significant first, without leading zeros.
pub open spec fn decimal(n: nat) -> Seq<char>
    decreases n,
{
    if n < 10 {
        seq![digit_char(n)]
    } else {
        decimal(n / 10) + seq![digit_char(n % 10)]
    }
}

/// The character of the decimal digit `d`.
pub open spec fn digit_char(d: nat) -> char {
    if d < 10 {
        (('0' as u8) + (d as u8)) as char
    } else {
        '0'
    }
}

fn digit_text(d: u64) -> (r: &'static str)
    requires
        d < 10,
    ensures
        r@ == seq![digit_char(d as nat)],
{
    let r = match d {
        0 => "0",
        1 => "1",
        2 => "2",
        3 => "3",
        4 => "4",
        5 => "5",
        6 => "6",
        7 => "7",
        8 => "8",
        _ => "9",
    };
    proof {
        reveal_strlit("0");
        reveal_strlit("1");
        reveal_strlit("2");
        reveal_strlit("3");
        reveal_strlit("4");
        reveal_strlit("5");
        reveal_strlit("6");
        reveal_strlit("7");
        reveal_strlit("8");
        reveal_strlit("9");
    }
    assert(r@ =~= seq![digit_char(d as nat)]);
    r
}

/// Writes `n` in decimal.
pub fn decimal_text(n: u64) -> (r: String)
    ensures
        r@ == decimal(n as nat),
    decreases n,
{
    if n < 10 {
        String::from_str(digit_text(n))
    } else {
        let mut s = decimal_text(n / 10);
        s.append(digit_text(n % 10));
        s
    }
}

/// Stores `data` at position `i` of `chunks`, adding empty chunks before it
/// where the list is too short.
fn store_chunk(chunks: &mut Vec<Vec<u8>>, i: usize, data: Vec<u8>)
    ensures
        bytes_seq(final(chunks)@) == put_chunk(bytes_seq(old(chunks)@), i as nat, data@),
{
    let ghost start = bytes_seq(chunks@);
    while chunks.len() <= i
        invariant
            start == bytes_seq(old(chunks)@),
            start.len() <= chunks@.len(),
            chunks@.len() <= i + 1 || chunks@.len() == start.len(),
            forall|j: int| 0 <= j < start.len() ==> #[trigger] chunks@[j]@ == start[j],
            forall|j: int| start.len() <= j < chunks@.len() ==> #[trigger] chunks@[j]@ == Seq::<u8>::empty(),
        decreases i + 1 - chunks@.len(),
    {
        let e: Vec<u8> = Vec::new();
        chunks.push(e);
    }
    assert(bytes_seq(chunks@) =~= padded(start, (i + 1) as nat, Seq::empty()));
    chunks.set(i, data);
    assert(bytes_seq(chunks@) =~= put_chunk(start, i as nat, data@));
}

/// Each segment of a segment list as the contracts see it.
pub open spec fn segments_view(s: Seq<SegmentInfo>) -> Seq<SegmentView> {
    s.map_values(|g: SegmentInfo| g@)
}

/// Stores `data` as chunk `ci` of segment `si`, adding empty segments and
/// chunks where the lists are too short.
fn store_segment_chunk(segs: &mut Vec<SegmentInfo>, si: usize, ci: usize, total: u32, data: Vec<u8>)
    ensures
        segments_view(final(segs)@) == put_segments_chunk(segments_view(old(segs)@), si as nat, ci as nat, total, data@),
        final(segs)@.len() == if old(segs)@.len() <= si { si + 1 } else { old(segs)@.len() as int },
{
    let ghost start = segments_view(segs@);
    while segs.len() <= si
        invariant
            start == segments_view(old(segs)@),
            start.len() <= segs@.len(),
            segs@.len() <= si + 1 || segs@.len() == start.len(),
            forall|j: int| 0 <= j < start.len() ==> #[trigger] segs@[j]@ == start[j],
            forall|j: int| start.len() <= j < segs@.len() ==> #[trigger] segs@[j]@ == empty_segment(),
        decreases si + 1 - segs@.len(),
    {
        let fresh = SegmentInfo { chunks: Vec::new(), total_chunk_count: 0 };
        assert(fresh@.chunks =~= Seq::<Seq<u8>>::empty());
        segs.push(fresh);
    }
    let ghost p = padded(start, (si + 1) as nat, empty_segment());
    assert(segments_view(segs@) =~= p);
    let seg = &mut segs[si];
    if seg.total_chunk_count == 0 {
        seg.total_chunk_count = total;
    }
    store_chunk(&mut seg.chunks, ci, data);
    assert(segments_view(segs@) =~= put_segments_chunk(start, si as nat, ci as nat, total, data@));
}

/// The video stored under `id`, or the empty one that a chunk upload creates.
pub open spec fn video_or_fresh(m: Map<Seq<char>, VideoView>, id: Seq<char>) -> VideoView {
    if m.contains_key(id) {
        m[id]
    } else {
        fresh_video(Seq::empty(), Seq::empty(), Seq::empty())
    }
}

/// The videos of a store, keyed by id.
pub struct VideoStore {
    videos: Vec<Video>,
}

spec fn ids_unique(vs: Seq<Video>) -> bool {
    forall|i: int, j: int|
        0 <= i < vs.len() && 0 <= j < vs.len() && i != j ==> #[trigger] vs[i].id@ != #[trigger] vs[j].id@
}

spec fn has_id(vs: Seq<Video>, k: Seq<char>) -> bool {
    exists|i: int| 0 <= i < vs.len() && #[trigger] vs[i].id@ == k
}

spec fn video_wf(v: Video) -> bool {
    v.segments.len() <= 0x1_0000_0000
}

spec fn store_wf(vs: Seq<Video>) -> bool {
    &&& ids_unique(vs)
    &&& forall|i: int| 0 <= i < vs.len() ==> video_wf(#[trigger] vs[i])
}

/// The map from id to video that a sequence of videos with unique ids stands for.
spec fn store_map(vs: Seq<Video>) -> Map<Seq<char>, VideoView> {
    Map::new(
        |k: Seq<char>| has_id(vs, k),
        |k: Seq<char>| vs[choose|i: int| 0 <= i < vs.len() && #[trigger] vs[i].id@ == k]@,
    )
}

proof fn lemma_map_at(vs: Seq<Video>, i: int)
    requires
        ids_unique(vs),
        0 <= i < vs.len(),
    ensures
        store_map(vs).contains_key(vs[i].id@),
        store_map(vs)[vs[i].id@] == vs[i]@,
{
    let k = vs[i].id@;
    assert(has_id(vs, k));
    let j = choose|j: int| 0 <= j < vs.len() && #[trigger] vs[j].id@ == k;
    assert(i == j);
}

proof fn lemma_map_update(vs: Seq<Video>, i: int, v: Video)
    requires
        store_wf(vs),
        0 <= i < vs.len(),
        v.id@ == vs[i].id@,
        video_wf(v),
    ensures
        store_wf(vs.update(i, v)),
        store_map(vs.update(i, v)) == store_map(vs).insert(v.id@, v@),
{
    let ws = vs.update(i, v);
    assert forall|a: int, b: int| 0 <= a < ws.len() && 0 <= b < ws.len() && a != b implies #[trigger] ws[a].id@ != #[trigger] ws[b].id@ by {
        assert(ws[a].id@ == vs[a].id@ && ws[b].id@ == vs[b].id@);
    }
    assert forall|k: Seq<char>| #[trigger] has_id(ws, k) == (has_id(vs, k) || k == v.id@) by {
        if has_id(ws, k) {
            let j = choose|j: int| 0 <= j < ws.len() && #[trigger] ws[j].id@ == k;
            assert(vs[j].id@ == k);
        }
        if has_id(vs, k) {
            let j = choose|j: int| 0 <= j < vs.len() && #[trigger] vs[j].id@ == k;
            assert(ws[j].id@ == k);
        }
        if k == v.id@ {
            assert(ws[i].id@ == k);
        }
    }
    assert forall|k: Seq<char>| #[trigger] store_map(ws).contains_key(k) implies store_map(ws)[k] == store_map(vs).insert(v.id@, v@)[k] by {
        let j = choose|j: int| 0 <= j < ws.len() && #[trigger] ws[j].id@ == k;
        lemma_map_at(ws, j);
        if j != i {
            lemma_map_at(vs, j);
        }
    }
    assert(store_map(ws) =~= store_map(vs).insert(v.id@, v@));
}

proof fn lemma_map_push(vs: Seq<Video>, v: Video)
    requires
        store_wf(vs),
        !has_id(vs, v.id@),
        video_wf(v),
    ensures
        store_wf(vs.push(v)),
        store_map(vs.push(v)) == store_map(vs).insert(v.id@, v@),
{
    let ws = vs.push(v);
    let n = vs.len() as int;
    assert forall|a: int, b: int| 0 <= a < ws.len() && 0 <= b < ws.len() && a != b implies #[trigger] ws[a].id@ != #[trigger] ws[b].id@ by {
        if a == n {
            assert(vs[b].id@ == ws[b].id@);
        } else if b == n {
            assert(vs[a].id@ == ws[a].id@);
        }
    }
    assert forall|k: Seq<char>| #[trigger] has_id(ws, k) == (has_id(vs, k) || k == v.id@) by {
        if has_id(ws, k) {
            let j = choose|j: int| 0 <= j < ws.len() && #[trigger] ws[j].id@ == k;
            if j < n {
                assert(vs[j].id@ == k);
            }
        }
        if has_id(vs, k) {
            let j = choose|j: int| 0 <= j < vs.len() && #[trigger] vs[j].id@ == k;
            assert(ws[j].id@ == k);
        }
        if k == v.id@ {
            assert(ws[n].id@ == k);
        }
    }
    assert forall|k: Seq<char>| #[trigger] store_map(ws).contains_key(k) implies store_map(ws)[k] == store_map(vs).insert(v.id@, v@)[k] by {
        let j = choose|j: int| 0 <= j < ws.len() && #[trigger] ws[j].id@ == k;
        lemma_map_at(ws, j);
        if j != n {
            assert(ws[j] == vs[j]);
            lemma_map_at(vs, j);
        }
    }
    assert(store_map(ws) =~= store_map(vs).insert(v.id@, v@));
}

proof fn lemma_map_remove(vs: Seq<Video>, i: int)
    requires
        store_wf(vs),
        0 <= i < vs.len(),
    ensures
        store_wf(vs.remove(i)),
        store_map(vs.remove(i)) == store_map(vs).remove(vs[i].id@),
{
    let ws = vs.remove(i);
    let gone = vs[i].id@;
    assert forall|a: int, b: int| 0 <= a < ws.len() && 0 <= b < ws.len() && a != b implies #[trigger] ws[a].id@ != #[trigger] ws[b].id@ by {
        let a2 = if a < i { a } else { a + 1 };
        let b2 = if b < i { b } else { b + 1 };
        assert(ws[a] == vs[a2] && ws[b] == vs[b2]);
    }
    assert forall|a: int| 0 <= a < ws.len() implies video_wf(#[trigger] ws[a]) by {
        let a2 = if a < i { a } else { a + 1 };
        assert(ws[a] == vs[a2]);
    }
    assert forall|k: Seq<char>| #[trigger] has_id(ws, k) == (has_id(vs, k) && k != gone) by {
        if has_id(ws, k) {
            let j = choose|j: int| 0 <= j < ws.len() && #[trigger] ws[j].id@ == k;
            let j2 = if j < i { j } else { j + 1 };
            assert(vs[j2].id@ == k);
        }
        if has_id(vs, k) && k != gone {
            let j = choose|j: int| 0 <= j < vs.len() && #[trigger] vs[j].id@ == k;
            let j2 = if j < i { j } else { j - 1 };
            assert(ws[j2].id@ == k);
        }
    }
    assert forall|k: Seq<char>| #[trigger] store_map(ws).contains_key(k) implies store_map(ws)[k] == store_map(vs)[k] by {
        let j = choose|j: int| 0 <= j < ws.len() && #[trigger] ws[j].id@ == k;
        let j2 = if j < i { j } else { j + 1 };
        assert(ws[j] == vs[j2]);
        lemma_map_at(ws, j);
        lemma_map_at(vs, j2);
    }
    assert(store_map(ws) =~= store_map(vs).remove(gone));
}

impl View for VideoStore {
    type V = Map<Seq<char>, VideoView>;

    closed spec fn view(&self) -> Map<Seq<char>, VideoView> {
        store_map(self.videos@)
    }
}

impl VideoStore {
    pub closed spec fn wf(&self) -> bool {
        store_wf(self.videos@)
    }

    proof fn lemma_view_at(&self, i: int)
        requires
            self.wf(),
            0 <= i < self.videos@.len(),
        ensures
            self@.contains_key(self.videos@[i].id@),
            self@[self.videos@[i].id@] == self.videos@[i]@,
            video_wf(self.videos@[i]),
    {
        lemma_map_at(self.videos@, i);
    }

    /// An empty store.
    pub fn new() -> (r: Self)
        ensures
            r.wf(),
            r@ == Map::<Seq<char>, VideoView>::empty(),
    {
        let r = VideoStore { videos: Vec::new() };
        assert(r@ =~= Map::<Seq<char>, VideoView>::empty());
        r
    }

    fn find(&self, id: &str) -> (r: Option<usize>)
        requires
            self.wf(),
        ensures
            match r {
                Some(i) => i < self.videos@.len() && self.videos@[i as int].id@ == id@,
                None => !self@.contains_key(id@),
            },
    {
        let key = String::from_str(id);
        let mut i: usize = 0;
        while i < self.videos.len()
            invariant
                i <= self.videos@.len(),
                key@ == id@,
                forall|j: int| 0 <= j < i ==> #[trigger] self.videos@[j].id@ != id@,
            decreases self.videos@.len() - i,
        {
            if self.videos[i].id == key {
                return Some(i);
            }
            i = i + 1;
        }
        None
    }

    /// Puts `v` under its id, in place of any video stored there before.
    fn put(&mut self, v: Video)
        requires
            old(self).wf(),
            video_wf(v),
        ensures
            final(self).wf(),
            final(self)@ == old(self)@.insert(v.id@, v@),
    {
        let ghost vs = self.videos@;
        match self.find(v.id.as_str()) {
            Some(i) => {
                proof {
                    lemma_map_update(vs, i as int, v);
                }
                self.videos.set(i, v);
            },
            None => {
                proof {
                    lemma_map_push(vs, v);
                }
                self.videos.push(v);
            },
        }
    }

    /// Finds the video `id`, adding an empty one under that id if there is none.
    fn find_or_add(&mut self, id: &str) -> (r: usize)
        requires
            old(self).wf(),
        ensures
            final(self).wf(),
            r < final(self).videos@.len(),
            final(self).videos@[r as int].id@ == id@,
            old(self)@.contains_key(id@) ==> final(self)@ == old(self)@,
            !old(self)@.contains_key(id@) ==> final(self)@ == old(self)@.insert(id@, fresh_video(Seq::empty(), Seq::empty(), Seq::empty())),
    {
        match self.find(id) {
            Some(i) => {
                proof {
                    self.lemma_view_at(i as int);
                    lemma_map_update(self.videos@, i as int, self.videos@[i as int]);
                    assert(self.videos@.update(i as int, self.videos@[i as int]) =~= self.videos@);
                }
                i
            },
            None => {
                let v = Video {
                    id: String::from_str(id),
                    title: String::new(),
                    description: String::new(),
                    hash: String::new(),
                    version: String::new(),
                    playlist: None,
                    thumbnail: None,
                    chunks: Vec::new(),
                    segments: Vec::new(),
                };
                assert(v@.chunks =~= Seq::<Seq<u8>>::empty());
                assert(v@.segments =~= Seq::<SegmentView>::empty());
                assert(v@ == fresh_video(Seq::empty(), Seq::empty(), Seq::empty()));
                let ghost vs = self.videos@;
                proof {
                    lemma_map_push(vs, v);
                }
                self.videos.push(v);
                self.videos.len() - 1
            },
        }
    }

    /// Creates a video whose id is the decimal text of `now`, the host's clock
    /// reading, and returns that id. A video already stored under the same id
    /// is replaced.
    pub fn create_video(&mut self, now: u64, version: String, title: String, description: String) -> (r: String)
        requires
            old(self).wf(),
        ensures
            final(self).wf(),
            r@ == decimal(now as nat),
            final(self)@ == old(self)@.insert(r@, fresh_video(version@, title@, description@)),
    {
        let id = decimal_text(now);
        let v = Video {
            id: id.clone(),
            title,
            description,
            hash: String::new(),
            version,
            playlist: None,
            thumbnail: None,
            chunks: Vec::new(),
            segments: Vec::new(),
        };
        assert(v@.chunks =~= Seq::<Seq<u8>>::empty());
        assert(v@.segments =~= Seq::<SegmentView>::empty());
        assert(v@ == fresh_video(version@, title@, description@));
        self.put(v);
        id
    }

    /// The title of the video `video_id`.
    pub fn get_video_info(&self, video_id: &str) -> (r: Result<String, StoreError>)
        requires
            self.wf(),
        ensures
            match r {
                Ok(t) => self@.contains_key(video_id@) && t@ == self@[video_id@].title,
                Err(e) => !self@.contains_key(video_id@) && e == StoreError::VideoNotFound,
            },
    {
        match self.find(video_id) {
            Some(i) => {
                proof {
                    self.lemma_view_at(i as int);
                }
                Ok(self.videos[i].title.clone())
            },
            None => Err(StoreError::VideoNotFound),
        }
    }

    /// Every stored video as (id, title, description, hash), each once, in
    /// no particular order.
    pub fn get_video_list(&self) -> (r: Vec<(String, String, String, String)>)
        requires
            self.wf(),
        ensures
            forall|j: int|
                0 <= j < r@.len() ==> {
                    let e = #[trigger] r@[j];
                    &&& self@.contains_key(e.0@)
                    &&& e.1@ == self@[e.0@].title
                    &&& e.2@ == self@[e.0@].description
                    &&& e.3@ == self@[e.0@].hash
                },
            forall|a: int, b: int|
                0 <= a < r@.len() && 0 <= b < r@.len() && a != b ==> #[trigger] r@[a].0@ != #[trigger] r@[b].0@,
            forall|k: Seq<char>| #[trigger] self@.contains_key(k) ==> exists|j: int| 0 <= j < r@.len() && #[trigger] r@[j].0@ == k,
    {
        let mut r: Vec<(String, String, String, String)> = Vec::new();
        let mut i: usize = 0;
        while i < self.videos.len()
            invariant
                self.wf(),
                i <= self.videos@.len(),
                r@.len() == i,
                forall|j: int|
                    0 <= j < i ==> {
                        let e = #[trigger] r@[j];
                        &&& e.0@ == self.videos@[j].id@
                        &&& e.1@ == self.videos@[j].title@
                        &&& e.2@ == self.videos@[j].description@
                        &&& e.3@ == self.videos@[j].hash@
                    },
            decreases self.videos@.len() - i,
        {
            let v = &self.videos[i];
            r.push((v.id.clone(), v.title.clone(), v.description.clone(), v.hash.clone()));
            i = i + 1;
        }
        assert forall|j: int| 0 <= j < r@.len() implies {
            let e = #[trigger] r@[j];
            &&& self@.contains_key(e.0@)
            &&& e.1@ == self@[e.0@].title
            &&& e.2@ == self@[e.0@].description
            &&& e.3@ == self@[e.0@].hash
        } by {
            self.lemma_view_at(j);
        }
        assert forall|k: Seq<char>| #[trigger] self@.contains_key(k) implies exists|j: int| 0 <= j < r@.len() && #[trigger] r@[j].0@ == k by {
            let j = choose|j: int| 0 <= j < self.videos@.len() && #[trigger] self.videos@[j].id@ == k;
            assert(r@[j].0@ == k);
        }
        assert forall|a: int, b: int| 0 <= a < r@.len() && 0 <= b < r@.len() && a != b implies #[trigger] r@[a].0@ != #[trigger] r@[b].0@ by {
            assert(r@[a].0@ == self.videos@[a].id@);
            assert(r@[b].0@ == self.videos@[b].id@);
        }
        r
    }

    /// The HLS playlist of the video `video_id`.
    pub fn get_hls_playlist(&self, video_id: &str, _canister_id: &str) -> (r: Result<String, StoreError>)
        requires
            self.wf(),
        ensures
            match r {
                Ok(p) => self@.contains_key(video_id@) && self@[video_id@].playlist == Some(p@),
                Err(e) => {
                    ||| !self@.contains_key(video_id@) && e == StoreError::VideoNotFound
                    ||| self@.contains_key(video_id@) && self@[video_id@].playlist is None
                        && e == StoreError::PlaylistNotFound
                },
            },
    {
        match self.find(video_id) {
            Some(i) => {
                proof {
                    self.lemma_view_at(i as int);
                }
                match &self.videos[i].playlist {
                    Some(p) => Ok(p.clone()),
                    None => Err(StoreError::PlaylistNotFound),
                }
            },
            None => Err(StoreError::VideoNotFound),
        }
    }

    /// Sets the HLS playlist of the video `video_id`.
    pub fn upload_playlist(&mut self, video_id: &str, playlist_text: String) -> (r: Result<(), StoreError>)
        requires
            old(self).wf(),
        ensures
            final(self).wf(),
            match r {
                Ok(_) => old(self)@.contains_key(video_id@) && final(self)@ == old(self)@.insert(
                    video_id@,
                    VideoView { playlist: Some(playlist_text@), ..old(self)@[video_id@] },
                ),
                Err(e) => !old(self)@.contains_key(video_id@) && e == StoreError::VideoNotFound
                    && final(self)@ == old(self)@,
            },
    {
        match self.find(video_id) {
            Some(i) => {
                proof {
                    self.lemma_view_at(i as int);
                }
                let ghost vs = self.videos@;
                let v = &mut self.videos[i];
                v.playlist = Some(playlist_text);
                proof {
                    lemma_map_update(vs, i as int, self.videos@[i as int]);
                    assert(self.videos@ == vs.update(i as int, self.videos@[i as int]));
                    assert(self.videos@[i as int]@ == VideoView { playlist: Some(playlist_text@), ..vs[i as int]@ });
                }
                Ok(())
            },
            None => Err(StoreError::VideoNotFound),
        }
    }

    /// Deletes the video `video_id`.
    pub fn delete_video(&mut self, video_id: &str) -> (r: Result<(), StoreError>)
        requires
            old(self).wf(),
        ensures
            final(self).wf(),
            final(self)@ == old(self)@.remove(video_id@),
            r is Ok <==> old(self)@.contains_key(video_id@),
            r is Err ==> r == Err::<(), StoreError>(StoreError::VideoNotFound),
    {
        match self.find(video_id) {
            Some(i) => {
                let ghost vs = self.videos@;
                proof {
                    lemma_map_remove(vs, i as int);
                }
                let _gone = self.videos.remove(i);
                Ok(())
            },
            None => {
                assert(self@.remove(video_id@) =~= self@);
                Err(StoreError::VideoNotFound)
            },
        }
    }

    /// Stores `data` as flat chunk `ci` of the video at position `i`.
    fn put_flat_chunk(&mut self, i: usize, ci: usize, data: Vec<u8>)
        requires
            old(self).wf(),
            i < old(self).videos@.len(),
        ensures
            final(self).wf(),
            final(self).videos@.len() == old(self).videos@.len(),
            final(self).videos@[i as int].id@ == old(self).videos@[i as int].id@,
            final(self)@ == old(self)@.insert(
                old(self).videos@[i as int].id@,
                VideoView {
                    chunks: put_chunk(old(self).videos@[i as int]@.chunks, ci as nat, data@),
                    ..old(self).videos@[i as int]@
                },
            ),
    {
        proof {
            self.lemma_view_at(i as int);
        }
        let ghost vs = self.videos@;
        let v = &mut self.videos[i];
        store_chunk(&mut v.chunks, ci, data);
        proof {
            lemma_map_update(vs, i as int, self.videos@[i as int]);
            assert(self.videos@ == vs.update(i as int, self.videos@[i as int]));
            assert(self.videos@[i as int]@ == VideoView {
                chunks: put_chunk(vs[i as int]@.chunks, ci as nat, data@),
                ..vs[i as int]@
            });
        }
    }

    /// Stores `chunk` at position `chunk_index` of the flat chunk list of the
    /// video `video_id`, creating an empty video under that id if there is none.
    pub fn upload_video_chunk(&mut self, video_id: &str, chunk_index: u32, chunk: Vec<u8>)
        requires
            old(self).wf(),
        ensures
            final(self).wf(),
            final(self)@ == old(self)@.insert(
                video_id@,
                VideoView {
                    chunks: put_chunk(video_or_fresh(old(self)@, video_id@).chunks, chunk_index as nat, chunk@),
                    ..video_or_fresh(old(self)@, video_id@)
                },
            ),
    {
        let i = self.find_or_add(video_id);
        proof {
            self.lemma_view_at(i as int);
        }
        self.put_flat_chunk(i, chunk_index as usize, chunk);
    }

    /// Stores the transport-stream segment `ts_segment` at position
    /// `segment_index` of the flat chunk list of the video `video_id`,
    /// creating an empty video under that id if there is none.
    pub fn upload_video_segment(&mut self, video_id: &str, ts_segment: Vec<u8>, segment_index: u32)
        requires
            old(self).wf(),
        ensures
            final(self).wf(),
            final(self)@ == old(self)@.insert(
                video_id@,
                VideoView {
                    chunks: put_chunk(video_or_fresh(old(self)@, video_id@).chunks, segment_index as nat, ts_segment@),
                    ..video_or_fresh(old(self)@, video_id@)
                },
            ),
    {
        self.upload_video_chunk(video_id, segment_index, ts_segment);
    }

    /// Stores `ts_data` at position `segment_index` of the flat chunk list of
    /// the video `video_id`, which must exist.
    pub fn upload_ts_segment(&mut self, video_id: &str, segment_index: u32, ts_data: Vec<u8>) -> (r: Result<(), StoreError>)
        requires
            old(self).wf(),
        ensures
            final(self).wf(),
            match r {
                Ok(_) => old(self)@.contains_key(video_id@) && final(self)@ == old(self)@.insert(
                    video_id@,
                    VideoView {
                        chunks: put_chunk(old(self)@[video_id@].chunks, segment_index as nat, ts_data@),
                        ..old(self)@[video_id@]
                    },
                ),
                Err(e) => !old(self)@.contains_key(video_id@) && e == StoreError::VideoNotFound
                    && final(self)@ == old(self)@,
            },
    {
        match self.find(video_id) {
            Some(i) => {
                proof {
                    self.lemma_view_at(i as int);
                }
                self.put_flat_chunk(i, segment_index as usize, ts_data);
                Ok(())
            },
            None => Err(StoreError::VideoNotFound),
        }
    }

    /// Flat chunk `index` of the video `video_id`; `missing` is the error
    /// for an index past the end of the list.
    fn flat_chunk(&self, video_id: &str, index: u32, missing: StoreError) -> (r: Result<Vec<u8>, StoreError>)
        requires
            self.wf(),
        ensures
            flat_chunk_result(self@, video_id@, index, missing, r),
    {
        match self.find(video_id) {
            Some(i) => {
                proof {
                    self.lemma_view_at(i as int);
                }
                let chunks = &self.videos[i].chunks;
                if (index as usize) < chunks.len() {
                    Ok(copy_bytes(&chunks[index as usize]))
                } else {
                    Err(missing)
                }
            },
            None => Err(StoreError::VideoNotFound),
        }
    }

    /// Flat chunk `chunk_index` of the video `video_id`.
    pub fn get_video_chunk(&self, video_id: &str, chunk_index: u32) -> (r: Result<Vec<u8>, StoreError>)
        requires
            self.wf(),
        ensures
            flat_chunk_result(self@, video_id@, chunk_index, StoreError::ChunkNotFound, r),
    {
        self.flat_chunk(video_id, chunk_index, StoreError::ChunkNotFound)
    }

    /// The transport-stream segment stored at flat position `segment_index`
    /// of the video `video_id`.
    pub fn get_hls_segment(&self, video_id: &str, segment_index: u32) -> (r: Result<Vec<u8>, StoreError>)
        requires
            self.wf(),
        ensures
            flat_chunk_result(self@, video_id@, segment_index, StoreError::SegmentNotFound, r),
    {
        self.flat_chunk(video_id, segment_index, StoreError::SegmentNotFound)
    }

    /// Stores `segment_chunk_data` as chunk `chunk_index` of segment
    /// `segment_index` of the video `video_id`. The segment's announced chunk
    /// count becomes `total_chunk_count` if it was still zero.
    pub fn upload_ts_segment_chunk(
        &mut self,
        video_id: &str,
        segment_index: u32,
        chunk_index: u32,
        total_chunk_count: u32,
        segment_chunk_data: Vec<u8>,
    ) -> (r: Result<(), StoreError>)
        requires
            old(self).wf(),
        ensures
            final(self).wf(),
            match r {
                Ok(_) => old(self)@.contains_key(video_id@) && final(self)@ == old(self)@.insert(
                    video_id@,
                    VideoView {
                        segments: put_segments_chunk(
                            old(self)@[video_id@].segments,
                            segment_index as nat,
                            chunk_index as nat,
                            total_chunk_count,
                            segment_chunk_data@,
                        ),
                        ..old(self)@[video_id@]
                    },
                ),
                Err(e) => !old(self)@.contains_key(video_id@) && e == StoreError::VideoNotFound
                    && final(self)@ == old(self)@,
            },
    {
        match self.find(video_id) {
            Some(i) => {
                proof {
                    self.lemma_view_at(i as int);
                }
                let ghost vs = self.videos@;
                let v = &mut self.videos[i];
                store_segment_chunk(
                    &mut v.segments,
                    segment_index as usize,
                    chunk_index as usize,
                    total_chunk_count,
                    segment_chunk_data,
                );
                proof {
                    lemma_map_update(vs, i as int, self.videos@[i as int]);
                    assert(self.videos@ == vs.update(i as int, self.videos@[i as int]));
                }
                Ok(())
            },
            None => Err(StoreError::VideoNotFound),
        }
    }

    /// The announced chunk count of every segment of the video `video_id`,
    /// in segment order.
    pub fn get_segment_info(&self, video_id: &str) -> (r: Result<Vec<SegmentChunkInfo>, StoreError>)
        requires
            self.wf(),
        ensures
            match r {
                Ok(list) => self@.contains_key(video_id@) && list@.len() == self@[video_id@].segments.len()
                    && forall|j: int|
                    0 <= j < list@.len() ==> (#[trigger] list@[j]).segment_id == j
                        && list@[j].total_chunk_count == self@[video_id@].segments[j].total_chunk_count,
                Err(e) => !self@.contains_key(video_id@) && e == StoreError::VideoNotFound,
            },
    {
        match self.find(video_id) {
            Some(i) => {
                proof {
                    self.lemma_view_at(i as int);
                }
                let segs = &self.videos[i].segments;
                let mut list: Vec<SegmentChunkInfo> = Vec::new();
                let mut j: usize = 0;
                while j < segs.len()
                    invariant
                        segs@.len() <= 0x1_0000_0000,
                        j <= segs@.len(),
                        list@.len() == j,
                        forall|k: int|
                            0 <= k < j ==> (#[trigger] list@[k]).segment_id == k
                                && list@[k].total_chunk_count == segs@[k].total_chunk_count,
                    decreases segs@.len() - j,
                {
                    list.push(SegmentChunkInfo { segment_id: j as u32, total_chunk_count: segs[j].total_chunk_count });
                    j = j + 1;
                }
                Ok(list)
            },
            None => Err(StoreError::VideoNotFound),
        }
    }

    /// Chunk `chunk_index` of segment `segment_index` of the video
    /// `video_id`, with the segment's announced chunk count.
    pub fn get_segment_chunk(&self, video_id: &str, segment_index: u32, chunk_index: u32) -> (r: Result<SegmentChunkResponse, StoreError>)
        requires
            self.wf(),
        ensures
            match r {
                Ok(resp) => {
                    let v = self@[video_id@];
                    &&& self@.contains_key(video_id@)
                    &&& segment_index < v.segments.len()
                    &&& chunk_index < v.segments[segment_index as int].chunks.len()
                    &&& resp.segment_chunk_data@ == v.segments[segment_index as int].chunks[chunk_index as int]
                    &&& resp.total_chunk_count == v.segments[segment_index as int].total_chunk_count
                },
                Err(e) => {
                    let v = self@[video_id@];
                    ||| !self@.contains_key(video_id@) && e == StoreError::VideoNotFound
                    ||| self@.contains_key(video_id@) && segment_index >= v.segments.len()
                        && e == StoreError::SegmentNotFound
                    ||| self@.contains_key(video_id@) && segment_index < v.segments.len()
                        && chunk_index >= v.segments[segment_index as int].chunks.len()
                        && e == StoreError::ChunkNotFound
                },
            },
    {
        match self.find(video_id) {
            Some(i) => {
                proof {
                    self.lemma_view_at(i as int);
                }
                let segs = &self.videos[i].segments;
                if (segment_index as usize) < segs.len() {
                    let seg = &segs[segment_index as usize];
                    if (chunk_index as usize) < seg.chunks.len() {
                        Ok(SegmentChunkResponse {
                            segment_chunk_data: copy_bytes(&seg.chunks[chunk_index as usize]),
                            total_chunk_count: seg.total_chunk_count,
                        })
                    } else {
                        Err(StoreError::ChunkNotFound)
                    }
                } else {
                    Err(StoreError::SegmentNotFound)
                }
            },
            None => Err(StoreError::VideoNotFound),
        }
    }

    /// Sets the thumbnail image of the video `video_id`.
    pub fn upload_thumbnail(&mut self, video_id: &str, thumbnail_data: Vec<u8>) -> (r: Result<(), StoreError>)
        requires
            old(self).wf(),
        ensures
            final(self).wf(),
            match r {
                Ok(_) => old(self)@.contains_key(video_id@) && final(self)@ == old(self)@.insert(
                    video_id@,
                    VideoView { thumbnail: Some(thumbnail_data@), ..old(self)@[video_id@] },
                ),
                Err(e) => !old(self)@.contains_key(video_id@) && e == StoreError::VideoNotFound
                    && final(self)@ == old(self)@,
            },
    {
        match self.find(video_id) {
            Some(i) => {
                proof {
                    self.lemma_view_at(i as int);
                }
                let ghost vs = self.videos@;
                let v = &mut self.videos[i];
                v.thumbnail = Some(thumbnail_data);
                proof {
                    lemma_map_update(vs, i as int, self.videos@[i as int]);
                    assert(self.videos@ == vs.update(i as int, self.videos@[i as int]));
                    assert(self.videos@[i as int]@ == VideoView { thumbnail: Some(thumbnail_data@), ..vs[i as int]@ });
                }
                Ok(())
            },
            None => Err(StoreError::VideoNotFound),
        }
    }

    /// The thumbnail image of the video `video_id`.
    pub fn get_thumbnail(&self, video_id: &str) -> (r: Result<Vec<u8>, StoreError>)
        requires
            self.wf(),
        ensures
            match r {
                Ok(t) => self@.contains_key(video_id@) && self@[video_id@].thumbnail == Some(t@),
                Err(e) => {
                    ||| !self@.contains_key(video_id@) && e == StoreError::VideoNotFound
                    ||| self@.contains_key(video_id@) && self@[video_id@].thumbnail is None
                        && e == StoreError::ThumbnailNotFound
                },
            },
    {
        match self.find(video_id) {
            Some(i) => {
                proof {
                    self.lemma_view_at(i as int);
                }
                match &self.videos[i].thumbnail {
                    Some(t) => Ok(copy_bytes(t)),
                    None => Err(StoreError::ThumbnailNotFound),
                }
            },
            None => Err(StoreError::VideoNotFound),
        }
    }
}

/// What reading flat chunk `index` of the video `id` gives: the chunk, or
/// `missing` past the end of the list, or `VideoNotFound`.
pub open spec fn flat_chunk_result(
    m: Map<Seq<char>, VideoView>,
    id: Seq<char>,
    index: u32,
    missing: StoreError,
    r: Result<Vec<u8>, StoreError>,
) -> bool {
    if !m.contains_key(id) {
        r == Err::<Vec<u8>, StoreError>(StoreError::VideoNotFound)
    } else if index < m[id].chunks.len() {
        r is Ok && r->Ok_0@ == m[id].chunks[index as int]
    } else {
        r == Err::<Vec<u8>, StoreError>(missing)
    }
}

} // verus!
