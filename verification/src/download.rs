//! Progress reports of the model download: what the app tells its window
//! when the model file is found cached, when the download starts, after
//! every chunk, and when it is finished.

use vstd::prelude::*;

verus! {

/// The stage a progress report belongs to.
#[derive(Clone, Copy, Debug, PartialEq, Eq, Structural)]
pub enum ProgressState {
    Cached,
    Started,
    Downloading,
    Finished,
}

impl ProgressState {
    /// The name the window receives: `cached`, `started`, `downloading`
    /// or `finished`.
    pub fn name(&self) -> (name: &'static str)
        ensures
            name@ == match self {
                ProgressState::Cached => "cached"@,
                ProgressState::Started => "started"@,
                ProgressState::Downloading => "downloading"@,
                ProgressState::Finished => "finished"@,
            },
    {
        match self {
            ProgressState::Cached => "cached",
            ProgressState::Started => "started",
            ProgressState::Downloading => "downloading",
            ProgressState::Finished => "finished",
        }
    }
}

/// One progress report.
#[derive(Clone, Debug, PartialEq, Eq)]
pub struct DownloadProgress {
    pub state: ProgressState,
    pub downloaded_bytes: u64,
    pub total_bytes: Option<u64>,
    pub path: Option<String>,
}

/// A report as values.
pub struct ProgressView {
    pub state: ProgressState,
    pub downloaded_bytes: nat,
    pub total_bytes: Option<u64>,
    pub path: Option<Seq<char>>,
}

impl View for DownloadProgress {
    type V = ProgressView;

    open spec fn view(&self) -> ProgressView {
        ProgressView {
            state: self.state,
            downloaded_bytes: self.downloaded_bytes as nat,
            total_bytes: self.total_bytes,
            path: match self.path {
                Some(p) => Some(p@),
                None => None,
            },
        }
    }
}

/// The report for a model file already on disk: its length counts as both
/// downloaded and total.
pub fn cached_progress(len: u64, path: &str) -> (report: DownloadProgress)
    ensures
        report@ == (ProgressView {
            state: ProgressState::Cached,
            downloaded_bytes: len as nat,
            total_bytes: Some(len),
            path: Some(path@),
        }),
{
    DownloadProgress {
        state: ProgressState::Cached,
        downloaded_bytes: len,
        total_bytes: Some(len),
        path: Some(path.to_owned()),
    }
}

/// A download in progress: the bytes received so far and the length the
/// server announced, if any.
pub struct Download {
    downloaded: u64,
    total: Option<u64>,
    chunks: Ghost<Seq<nat>>,
}

/// A download as values.
pub struct DownloadView {
    pub downloaded: nat,
    pub total: Option<u64>,
    pub chunks: Seq<nat>,
}

/// The sum of chunk sizes.
pub open spec fn sum_of(chunks: Seq<nat>) -> nat
    decreases chunks.len(),
{
    if chunks.len() == 0 {
        0
    } else {
        sum_of(chunks.drop_last()) + chunks.last()
    }
}

/// The `started` report.
pub open spec fn started_message(total: Option<u64>) -> ProgressView {
    ProgressView {
        state: ProgressState::Started,
        downloaded_bytes: 0,
        total_bytes: total,
        path: None,
    }
}

/// The `downloading` report sent after chunk `i` arrived: the bytes of
/// chunks `0..=i`.
pub open spec fn chunk_message(total: Option<u64>, chunks: Seq<nat>, i: int) -> ProgressView {
    ProgressView {
        state: ProgressState::Downloading,
        downloaded_bytes: sum_of(chunks.take(i + 1)),
        total_bytes: total,
        path: None,
    }
}

/// The `finished` report for the file stored at `path`.
pub open spec fn finished_message(total: Option<u64>, chunks: Seq<nat>, path: Seq<char>) -> ProgressView {
    ProgressView {
        state: ProgressState::Finished,
        downloaded_bytes: sum_of(chunks),
        total_bytes: match total {
            Some(t) => Some(t),
            None => Some(sum_of(chunks) as u64),
        },
        path: Some(path),
    }
}

/// Every report one download sends, in order: `started`, one `downloading`
/// report per chunk, `finished`.
#[verifier::opaque]
pub open spec fn download_messages(total: Option<u64>, chunks: Seq<nat>, path: Seq<char>) -> Seq<ProgressView> {
    seq![started_message(total)] + Seq::new(chunks.len(), |i: int| chunk_message(total, chunks, i))
        + seq![finished_message(total, chunks, path)]
}

impl View for Download {
    type V = DownloadView;

    closed spec fn view(&self) -> DownloadView {
        DownloadView { downloaded: self.downloaded as nat, total: self.total, chunks: self.chunks@ }
    }
}

impl Download {
    pub closed spec fn well_formed(&self) -> bool {
        &&& self.downloaded == sum_of(self.chunks@)
        &&& forall|i: int| 0 <= i < self.chunks@.len() ==> #[trigger] self.chunks@[i] > 0
    }

    /// Starts a download whose response announced `total` bytes, with the
    /// `started` report.
    pub fn start(total: Option<u64>) -> (started: (Download, DownloadProgress))
        ensures
            started.0.well_formed(),
            started.0@ == (DownloadView { downloaded: 0, total: total, chunks: Seq::empty() }),
            started.1@ == started_message(total),
    {
        let download = Download { downloaded: 0, total, chunks: Ghost(Seq::empty()) };
        let report = DownloadProgress {
            state: ProgressState::Started,
            downloaded_bytes: 0,
            total_bytes: total,
            path: None,
        };
        (download, report)
    }

    /// Bytes received so far.
    pub fn downloaded(&self) -> (n: u64)
        ensures
            n == self@.downloaded,
    {
        self.downloaded
    }

    /// Counts a chunk of `n` bytes and returns the `downloading` report; a
    /// read of no bytes ends the stream and gives no report.
    pub fn on_read(&mut self, n: u64) -> (report: Option<DownloadProgress>)
        requires
            old(self).well_formed(),
            old(self)@.downloaded + n <= u64::MAX,
        ensures
            final(self).well_formed(),
            n == 0 ==> report is None && final(self)@ == old(self)@,
            n > 0 ==> final(self)@ == (DownloadView {
                downloaded: old(self)@.downloaded + n as nat,
                total: old(self)@.total,
                chunks: old(self)@.chunks.push(n as nat),
            }),
            n > 0 ==> (report matches Some(r) && r@ == (ProgressView {
                state: ProgressState::Downloading,
                downloaded_bytes: final(self)@.downloaded,
                total_bytes: old(self)@.total,
                path: None,
            })),
            n > 0 ==> (report matches Some(r) && r@ == chunk_message(
                old(self)@.total,
                final(self)@.chunks,
                old(self)@.chunks.len() as int,
            )),
    {
        if n == 0 {
            return None;
        }
        self.downloaded = self.downloaded + n;
        self.chunks = Ghost(self.chunks@.push(n as nat));
        proof {
            assert(self.chunks@.drop_last() =~= old(self).chunks@);
            assert(self.chunks@.take(self.chunks@.len() as int) =~= self.chunks@);
        }
        Some(
            DownloadProgress {
                state: ProgressState::Downloading,
                downloaded_bytes: self.downloaded,
                total_bytes: self.total,
                path: None,
            },
        )
    }

    /// The `finished` report for the file stored at `path`: where the server
    /// announced no length, the bytes received stand for the total.
    pub fn finish(&self, path: &str) -> (report: DownloadProgress)
        requires
            self.well_formed(),
        ensures
            report@ == (ProgressView {
                state: ProgressState::Finished,
                downloaded_bytes: self@.downloaded,
                total_bytes: match self@.total {
                    Some(t) => Some(t),
                    None => Some(self@.downloaded as u64),
                },
                path: Some(path@),
            }),
            report@ == finished_message(self@.total, self@.chunks, path@),
    {
        let total = match self.total {
            Some(t) => Some(t),
            None => Some(self.downloaded),
        };
        DownloadProgress {
            state: ProgressState::Finished,
            downloaded_bytes: self.downloaded,
            total_bytes: total,
            path: Some(path.to_owned()),
        }
    }
}

/// The bytes counted by a download are the sum of the chunks it was told
/// of.
pub proof fn lemma_download_counts_chunks(d: &Download)
    requires
        d.well_formed(),
    ensures
        d@.downloaded == sum_of(d@.chunks),
        forall|i: int| 0 <= i < d@.chunks.len() ==> #[trigger] d@.chunks[i] > 0,
{
}

proof fn lemma_prefix_sum_step(chunks: Seq<nat>, i: int)
    requires
        0 <= i < chunks.len(),
    ensures
        sum_of(chunks.take(i + 1)) == sum_of(chunks.take(i)) + chunks[i],
{
    assert(chunks.take(i + 1).drop_last() =~= chunks.take(i));
}

proof fn lemma_prefix_sums_grow(chunks: Seq<nat>, i: int, j: int)
    requires
        0 <= i <= j <= chunks.len(),
    ensures
        sum_of(chunks.take(i)) <= sum_of(chunks.take(j)),
    decreases j - i,
{
    if i < j {
        lemma_prefix_sum_step(chunks, j - 1);
        lemma_prefix_sums_grow(chunks, i, j - 1);
    }
}

/// Report `i` of a download is `started` for `i == 0`, the report for chunk
/// `i - 1` while chunks remain, and `finished` last; its bytes are those of
/// the chunks before it. These are the reports that `Download::start`,
/// `Download::on_read` and `Download::finish` hand out.
pub proof fn lemma_message_at(total: Option<u64>, chunks: Seq<nat>, path: Seq<char>, i: int)
    requires
        0 <= i < chunks.len() + 2,
    ensures
        download_messages(total, chunks, path).len() == chunks.len() + 2,
        i == 0 ==> download_messages(total, chunks, path)[i] == started_message(total),
        1 <= i <= chunks.len() ==> download_messages(total, chunks, path)[i] == chunk_message(
            total,
            chunks,
            i - 1,
        ),
        i == chunks.len() + 1 ==> download_messages(total, chunks, path)[i] == finished_message(
            total,
            chunks,
            path,
        ),
        download_messages(total, chunks, path)[i].downloaded_bytes == sum_of(
            chunks.take(if i <= chunks.len() { i } else { chunks.len() as int }),
        ),
{
    reveal(download_messages);
    assert(chunks.take(0) =~= Seq::<nat>::empty());
    assert(chunks.take(chunks.len() as int) =~= chunks);
}

/// Report `i + 1` is the `downloading` report for chunk `i`: it adds that
/// chunk, which is not empty, to the bytes of report `i`.
pub open spec fn adds_chunk(msgs: Seq<ProgressView>, chunks: Seq<nat>, i: int) -> bool {
    &&& msgs[i + 1].state == ProgressState::Downloading
    &&& chunks[i] > 0
    &&& msgs[i + 1].downloaded_bytes == msgs[i].downloaded_bytes + chunks[i]
}

proof fn lemma_messages_step(total: Option<u64>, chunks: Seq<nat>, path: Seq<char>, i: int)
    requires
        0 <= i < chunks.len(),
        chunks[i] > 0,
    ensures
        adds_chunk(download_messages(total, chunks, path), chunks, i),
{
    lemma_message_at(total, chunks, path, i + 1);
    lemma_message_at(total, chunks, path, i);
    lemma_prefix_sum_step(chunks, i);
}

proof fn lemma_messages_grow(total: Option<u64>, chunks: Seq<nat>, path: Seq<char>, i: int, j: int)
    requires
        0 <= i <= j < chunks.len() + 2,
    ensures
        download_messages(total, chunks, path)[i].downloaded_bytes <= download_messages(
            total,
            chunks,
            path,
        )[j].downloaded_bytes,
{
    let n = chunks.len() as int;
    lemma_message_at(total, chunks, path, i);
    lemma_message_at(total, chunks, path, j);
    lemma_prefix_sums_grow(chunks, if i <= n { i } else { n }, if j <= n { j } else { n });
}

proof fn lemma_messages_path(total: Option<u64>, chunks: Seq<nat>, path: Seq<char>, i: int)
    requires
        0 <= i < chunks.len() + 1,
    ensures
        download_messages(total, chunks, path)[i].path is None,
{
    lemma_message_at(total, chunks, path, i);
}

/// The reports of one download, in the order they are sent: the first is
/// `started` with no bytes; the report after chunk `i` is `downloading` and
/// adds that chunk, which is never empty, to the bytes of the report before
/// it (`adds_chunk`); `finished` comes
/// last with the same bytes as the report before it; the bytes never
/// decrease; and only `finished` carries a path.
pub proof fn lemma_download_messages(total: Option<u64>, chunks: Seq<nat>, path: Seq<char>)
    requires
        forall|i: int| 0 <= i < chunks.len() ==> #[trigger] chunks[i] > 0,
    ensures
        ({
            let msgs = download_messages(total, chunks, path);
            &&& msgs.len() == chunks.len() + 2
            &&& msgs[0].state == ProgressState::Started
            &&& msgs[0].downloaded_bytes == 0
            &&& forall|i: int| 0 <= i < chunks.len() ==> #[trigger] adds_chunk(msgs, chunks, i)
            &&& msgs.last().state == ProgressState::Finished
            &&& msgs.last().downloaded_bytes == msgs[msgs.len() - 2].downloaded_bytes
            &&& forall|i: int, j: int|
                0 <= i <= j < msgs.len() ==> #[trigger] msgs[i].downloaded_bytes
                    <= #[trigger] msgs[j].downloaded_bytes
            &&& forall|i: int| 0 <= i < msgs.len() - 1 ==> (#[trigger] msgs[i]).path is None
            &&& msgs.last().path == Some(path)
        }),
{
    let msgs = download_messages(total, chunks, path);
    let n = chunks.len() as int;
    lemma_message_at(total, chunks, path, 0);
    lemma_message_at(total, chunks, path, n);
    lemma_message_at(total, chunks, path, n + 1);
    assert forall|i: int| 0 <= i < chunks.len() implies #[trigger] adds_chunk(msgs, chunks, i) by {
        lemma_messages_step(total, chunks, path, i);
    }
    assert forall|i: int, j: int|
        0 <= i <= j < msgs.len() implies #[trigger] msgs[i].downloaded_bytes
        <= #[trigger] msgs[j].downloaded_bytes by {
        lemma_messages_grow(total, chunks, path, i, j);
    }
    assert forall|i: int| 0 <= i < msgs.len() - 1 implies (#[trigger] msgs[i]).path is None by {
        lemma_messages_path(total, chunks, path, i);
    }
}

} // verus!
