use vstd::prelude::*;

verus! {

/// Number of columns in one row of the torrent table that the service returns.
pub const ROW_ARITY: usize = 20;

/// Lifecycle state of a torrent as the remote service reports it.
#[derive(Clone, Copy, Debug, PartialEq, Eq, Structural)]
pub enum TorrentStatus {
    Paused,
    VerifyQueued,
    Verifying,
    DownQueued,
    Downloading,
    SeedQueued,
    Seeding,
}

/// The status that a wire code stands for, if any.
pub open spec fn status_of_code(value: int) -> Option<TorrentStatus> {
    if value == 0 {
        Some(TorrentStatus::Paused)
    } else if value == 1 {
        Some(TorrentStatus::VerifyQueued)
    } else if value == 2 {
        Some(TorrentStatus::Verifying)
    } else if value == 3 {
        Some(TorrentStatus::DownQueued)
    } else if value == 4 {
        Some(TorrentStatus::Downloading)
    } else if value == 5 {
        Some(TorrentStatus::SeedQueued)
    } else if value == 6 {
        Some(TorrentStatus::Seeding)
    } else {
        None
    }
}

impl TorrentStatus {
    /// Maps a wire code (0 to 6) to its status; every other code is refused.
    pub fn try_from(value: i64) -> (r: Result<TorrentStatus, &'static str>)
        ensures
            status_of_code(value as int) is Some <==> r is Ok,
            r is Ok ==> status_of_code(value as int) == Some(r->Ok_0),
            r is Err ==> r->Err_0@ == "Can't construct TorrentStatus"@,
    {
        match value {
            0 => Ok(TorrentStatus::Paused),
            1 => Ok(TorrentStatus::VerifyQueued),
            2 => Ok(TorrentStatus::Verifying),
            3 => Ok(TorrentStatus::DownQueued),
            4 => Ok(TorrentStatus::Downloading),
            5 => Ok(TorrentStatus::SeedQueued),
            6 => Ok(TorrentStatus::Seeding),
            _ => Err("Can't construct TorrentStatus"),
        }
    }
}

/// One cell of a raw table row, as the transport decoded it.
/// Non-integral numbers arrive scaled to thousandths.
#[derive(Clone, Debug)]
pub enum RawField {
    Int(i64),
    Thousandths(i64),
    Text(String),
    Flag(bool),
    Null,
}

/// Why a raw row could not be read as a torrent.
#[derive(Clone, Copy, Debug, PartialEq, Eq, Structural)]
pub enum ParseError {
    /// The row has fewer cells than the schema; carries the row's length.
    RowTooShort(usize),
    /// The cell at this column has the wrong shape for its field.
    FieldType(usize),
}

/// The shapes that the columns of a row can take.
pub enum FieldKind {
    Integer,
    Status,
    Fraction,
    Textual,
    Boolean,
}

/// The schema of a row: what shape each column must have.
pub open spec fn column_kind(k: int) -> FieldKind {
    if k == 1 || k == 5 || k == 16 {
        FieldKind::Textual
    } else if k == 2 {
        FieldKind::Status
    } else if k == 3 || k == 10 || k == 14 || k == 18 {
        FieldKind::Fraction
    } else if k == 8 || k == 9 {
        FieldKind::Boolean
    } else {
        FieldKind::Integer
    }
}

pub open spec fn fraction_fits(i: int) -> bool {
    -9_223_372_036_854_775 <= i <= 9_223_372_036_854_775
}

/// Whether a cell has the shape that column `k` asks for.
pub open spec fn cell_ok(f: RawField, k: int) -> bool {
    match column_kind(k) {
        FieldKind::Integer => f is Int,
        FieldKind::Status => f matches RawField::Int(v) && status_of_code(v as int) is Some,
        FieldKind::Fraction => (f matches RawField::Int(v) && fraction_fits(v as int)) || f is Thousandths,
        FieldKind::Textual => f is Text,
        FieldKind::Boolean => f is Flag,
    }
}

pub open spec fn row_ok(row: Seq<RawField>) -> bool {
    row.len() >= ROW_ARITY && forall|k: int| 0 <= k < ROW_ARITY ==> #[trigger] cell_ok(row[k], k)
}

/// The column at which a row with all its columns present first goes wrong.
pub open spec fn first_bad_cell(row: Seq<RawField>, k: int) -> bool {
    0 <= k < ROW_ARITY && !cell_ok(row[k], k) && forall|j: int| 0 <= j < k ==> #[trigger] cell_ok(row[j], j)
}

pub open spec fn int_cell(f: RawField) -> int {
    match f {
        RawField::Int(v) => v as int,
        RawField::Thousandths(v) => v as int,
        _ => 0,
    }
}

pub open spec fn fraction_cell(f: RawField) -> int {
    match f {
        RawField::Int(v) => v * 1000,
        RawField::Thousandths(v) => v as int,
        _ => 0,
    }
}

pub open spec fn text_cell(f: RawField) -> Seq<char> {
    match f {
        RawField::Text(s) => s@,
        _ => Seq::empty(),
    }
}

pub open spec fn flag_cell(f: RawField) -> bool {
    match f {
        RawField::Flag(b) => b,
        _ => false,
    }
}

/// One row of the main list. Fractions (percent done, ratio, progress) are
/// held in thousandths.
#[derive(Clone, Debug)]
pub struct TorrentInfo {
    pub id: i64,
    pub name: String,
    pub status: TorrentStatus,
    pub percent_done: i64,
    pub error: i64,
    pub error_string: String,
    pub eta: i64,
    pub queue_position: i64,
    pub is_finished: bool,
    pub is_stalled: bool,
    pub metadata_percent_complete: i64,
    pub peers_connected: i64,
    pub rate_download: i64,
    pub rate_upload: i64,
    pub recheck_progress: i64,
    pub size_when_done: i64,
    pub download_dir: String,
    pub uploaded_ever: i64,
    pub upload_ratio: i64,
    pub added_date: i64,
}

/// Every field of `t` other than the two rates is what the row holds.
pub open spec fn fields_from_row(row: Seq<RawField>, t: TorrentInfo) -> bool {
    &&& t.id == int_cell(row[0])
    &&& t.name@ == text_cell(row[1])
    &&& status_of_code(int_cell(row[2])) == Some(t.status)
    &&& t.percent_done == fraction_cell(row[3])
    &&& t.error == int_cell(row[4])
    &&& t.error_string@ == text_cell(row[5])
    &&& t.eta == int_cell(row[6])
    &&& t.queue_position == int_cell(row[7])
    &&& t.is_finished == flag_cell(row[8])
    &&& t.is_stalled == flag_cell(row[9])
    &&& t.metadata_percent_complete == fraction_cell(row[10])
    &&& t.peers_connected == int_cell(row[11])
    &&& t.recheck_progress == fraction_cell(row[14])
    &&& t.size_when_done == int_cell(row[15])
    &&& t.download_dir@ == text_cell(row[16])
    &&& t.uploaded_ever == int_cell(row[17])
    &&& t.upload_ratio == fraction_cell(row[18])
    &&& t.added_date == int_cell(row[19])
}

pub open spec fn decodes_to(row: Seq<RawField>, t: TorrentInfo) -> bool {
    &&& fields_from_row(row, t)
    &&& t.rate_download == int_cell(row[12])
    &&& t.rate_upload == int_cell(row[13])
}

/// Integer division of a sum by two, rounding toward zero as Rust does.
pub open spec fn halved_sum(a: int, b: int) -> int {
    if a + b >= 0 {
        (a + b) / 2
    } else {
        -((-(a + b)) / 2)
    }
}

/// What `old` becomes when a fresh report `fresh` of the same torrent
/// arrives: the id is kept, rates are smoothed as the mean of old and new,
/// every other field is replaced.
pub open spec fn merged(old: TorrentInfo, fresh: TorrentInfo) -> TorrentInfo {
    TorrentInfo {
        rate_download: halved_sum(old.rate_download as int, fresh.rate_download as int) as i64,
        rate_upload: halved_sum(old.rate_upload as int, fresh.rate_upload as int) as i64,
        id: old.id,
        ..fresh
    }
}

fn cell_matches(f: &RawField, k: usize) -> (b: bool)
    ensures
        b == cell_ok(*f, k as int),
{
    if k == 1 || k == 5 || k == 16 {
        matches!(f, RawField::Text(_))
    } else if k == 2 {
        match f {
            RawField::Int(v) => 0 <= *v && *v <= 6,
            _ => false,
        }
    } else if k == 3 || k == 10 || k == 14 || k == 18 {
        match f {
            RawField::Int(v) => -9_223_372_036_854_775 <= *v && *v <= 9_223_372_036_854_775,
            RawField::Thousandths(_) => true,
            _ => false,
        }
    } else if k == 8 || k == 9 {
        matches!(f, RawField::Flag(_))
    } else {
        matches!(f, RawField::Int(_))
    }
}

fn read_int(f: &RawField) -> (r: i64)
    requires
        f is Int || f is Thousandths,
    ensures
        r == int_cell(*f),
{
    match f {
        RawField::Int(v) => *v,
        RawField::Thousandths(v) => *v,
        _ => 0,
    }
}

fn read_fraction(f: &RawField) -> (r: i64)
    requires
        (f matches RawField::Int(v) && fraction_fits(v as int)) || f is Thousandths,
    ensures
        r == fraction_cell(*f),
{
    match f {
        RawField::Int(v) => *v * 1000,
        RawField::Thousandths(v) => *v,
        _ => 0,
    }
}

fn read_text(f: &RawField) -> (r: String)
    ensures
        r@ == text_cell(*f),
{
    match f {
        RawField::Text(s) => s.clone(),
        _ => String::new(),
    }
}

fn read_flag(f: &RawField) -> (r: bool)
    ensures
        r == flag_cell(*f),
{
    match f {
        RawField::Flag(b) => *b,
        _ => false,
    }
}

impl TorrentInfo {
    /// Decodes one table row. A short row, or a cell of the wrong shape, is
    /// refused with the column at fault; nothing is guessed.
    pub fn new(row: &Vec<RawField>) -> (r: Result<TorrentInfo, ParseError>)
        ensures
            r is Ok <==> row_ok(row@),
            r matches Ok(t) ==> decodes_to(row@, t),
            row@.len() < ROW_ARITY ==> r == Err::<TorrentInfo, ParseError>(
                ParseError::RowTooShort(row@.len() as usize),
            ),
            r matches Err(ParseError::FieldType(k)) ==> first_bad_cell(row@, k as int),
            r is Err ==> row@.len() < ROW_ARITY || r->Err_0 is FieldType,
    {
        if row.len() < ROW_ARITY {
            return Err(ParseError::RowTooShort(row.len()));
        }
        let mut k: usize = 0;
        while k < ROW_ARITY
            invariant
                k <= ROW_ARITY <= row@.len(),
                forall|j: int| 0 <= j < k ==> #[trigger] cell_ok(row@[j], j),
            decreases ROW_ARITY - k,
        {
            if !cell_matches(&row[k], k) {
                return Err(ParseError::FieldType(k));
            }
            k = k + 1;
        }
        assert(cell_ok(row@[2], 2));
        assert(cell_ok(row@[0], 0) && cell_ok(row@[3], 3) && cell_ok(row@[4], 4));
        assert(cell_ok(row@[6], 6) && cell_ok(row@[7], 7) && cell_ok(row@[10], 10));
        assert(cell_ok(row@[11], 11) && cell_ok(row@[12], 12) && cell_ok(row@[13], 13));
        assert(cell_ok(row@[14], 14) && cell_ok(row@[15], 15) && cell_ok(row@[17], 17));
        assert(cell_ok(row@[18], 18) && cell_ok(row@[19], 19));
        let code = read_int(&row[2]);
        let status = match TorrentStatus::try_from(code) {
            Ok(s) => s,
            Err(_) => TorrentStatus::Paused,
        };
        Ok(TorrentInfo {
            id: read_int(&row[0]),
            name: read_text(&row[1]),
            status,
            percent_done: read_fraction(&row[3]),
            error: read_int(&row[4]),
            error_string: read_text(&row[5]),
            eta: read_int(&row[6]),
            queue_position: read_int(&row[7]),
            is_finished: read_flag(&row[8]),
            is_stalled: read_flag(&row[9]),
            metadata_percent_complete: read_fraction(&row[10]),
            peers_connected: read_int(&row[11]),
            rate_download: read_int(&row[12]),
            rate_upload: read_int(&row[13]),
            recheck_progress: read_fraction(&row[14]),
            size_when_done: read_int(&row[15]),
            download_dir: read_text(&row[16]),
            uploaded_ever: read_int(&row[17]),
            upload_ratio: read_fraction(&row[18]),
            added_date: read_int(&row[19]),
        })
    }

    /// A field-by-field copy.
    pub fn duplicate(&self) -> (r: TorrentInfo)
        ensures
            r == *self,
    {
        TorrentInfo {
            id: self.id,
            name: self.name.clone(),
            status: self.status,
            percent_done: self.percent_done,
            error: self.error,
            error_string: self.error_string.clone(),
            eta: self.eta,
            queue_position: self.queue_position,
            is_finished: self.is_finished,
            is_stalled: self.is_stalled,
            metadata_percent_complete: self.metadata_percent_complete,
            peers_connected: self.peers_connected,
            rate_download: self.rate_download,
            rate_upload: self.rate_upload,
            recheck_progress: self.recheck_progress,
            size_when_done: self.size_when_done,
            download_dir: self.download_dir.clone(),
            uploaded_ever: self.uploaded_ever,
            upload_ratio: self.upload_ratio,
            added_date: self.added_date,
        }
    }

    /// Takes in a fresh report of this torrent: the two rates become the mean
    /// of the old and new rate, the id is kept, every other field is replaced.
    pub fn update(&mut self, fresh: &TorrentInfo)
        ensures
            *final(self) == merged(*old(self), *fresh),
    {
        let rd = smooth_rate(self.rate_download, fresh.rate_download);
        let ru = smooth_rate(self.rate_upload, fresh.rate_upload);
        let id = self.id;
        *self = fresh.duplicate();
        self.id = id;
        self.rate_download = rd;
        self.rate_upload = ru;
    }
}

/// The mean of two rates, rounded toward zero.
pub fn smooth_rate(a: i64, b: i64) -> (r: i64)
    ensures
        r == halved_sum(a as int, b as int),
{
    let s: i128 = a as i128 + b as i128;
    let h: i128 = if s >= 0 {
        s / 2
    } else {
        -((-s) / 2)
    };
    assert(i64::MIN <= h <= i64::MAX);
    h as i64
}

} // verus!
