//! Updates of the studio: what is known about them, how a downloaded update is kept
//! and checked, and how it is installed.
//!
//! Network, disk and the installer are the caller's. `U` is the handle of an update
//! with the file that holds it.

use sha2::{Digest, Sha256};
use vstd::prelude::*;
use vstd::string::*;

use crate::taskbar;
use crate::taskbar::{Activity, Presentation, TaskbarState};
use crate::text::{joined, same_text};

verus! {

/// The SHA-256 digest of bytes.
pub uninterp spec fn sha256_of(bytes: Seq<u8>) -> Seq<u8>;

/// `sha2::Sha256::digest`: the digest of the bytes, which depends on nothing else.
#[verifier::external_body]
fn sha256(bytes: &Vec<u8>) -> (r: [u8; 32])
    ensures
        r@ == sha256_of(bytes@),
{
    Sha256::digest(bytes).into()
}

/// How far an update has come.
#[derive(Clone, Debug)]
pub enum UpdateStatus {
    Checking,
    UpToDate,
    Available { version: String },
    Downloading { version: String, progress: Option<u8> },
    Ready { version: String },
    Installing { version: String },
    Installed { version: String },
    Error { message: String },
}

/// What a status says.
pub enum StatusView {
    Checking,
    UpToDate,
    Available { version: Seq<char> },
    Downloading { version: Seq<char>, progress: Option<u8> },
    Ready { version: Seq<char> },
    Installing { version: Seq<char> },
    Installed { version: Seq<char> },
    Error { message: Seq<char> },
}

impl View for UpdateStatus {
    type V = StatusView;

    open spec fn view(&self) -> StatusView {
        match *self {
            UpdateStatus::Checking => StatusView::Checking,
            UpdateStatus::UpToDate => StatusView::UpToDate,
            UpdateStatus::Available { version } => StatusView::Available { version: version@ },
            UpdateStatus::Downloading { version, progress } => StatusView::Downloading {
                version: version@,
                progress,
            },
            UpdateStatus::Ready { version } => StatusView::Ready { version: version@ },
            UpdateStatus::Installing { version } => StatusView::Installing { version: version@ },
            UpdateStatus::Installed { version } => StatusView::Installed { version: version@ },
            UpdateStatus::Error { message } => StatusView::Error { message: message@ },
        }
    }
}

impl UpdateStatus {
    /// Whether two statuses say the same.
    pub fn same(&self, other: &UpdateStatus) -> (r: bool)
        ensures
            r == (self@ == other@),
    {
        match (self, other) {
            (UpdateStatus::Checking, UpdateStatus::Checking) => true,
            (UpdateStatus::UpToDate, UpdateStatus::UpToDate) => true,
            (
                UpdateStatus::Available { version: a },
                UpdateStatus::Available { version: b },
            ) => same_text(a.as_str(), b.as_str()),
            (
                UpdateStatus::Downloading { version: a, progress: p },
                UpdateStatus::Downloading { version: b, progress: q },
            ) => same_text(a.as_str(), b.as_str()) && *p == *q,
            (UpdateStatus::Ready { version: a }, UpdateStatus::Ready { version: b }) => same_text(
                a.as_str(),
                b.as_str(),
            ),
            (
                UpdateStatus::Installing { version: a },
                UpdateStatus::Installing { version: b },
            ) => same_text(a.as_str(), b.as_str()),
            (
                UpdateStatus::Installed { version: a },
                UpdateStatus::Installed { version: b },
            ) => same_text(a.as_str(), b.as_str()),
            (UpdateStatus::Error { message: a }, UpdateStatus::Error { message: b }) => same_text(
                a.as_str(),
                b.as_str(),
            ),
            _ => false,
        }
    }

    /// A copy.
    pub fn copy(&self) -> (r: UpdateStatus)
        ensures
            r@ == self@,
    {
        match self {
            UpdateStatus::Checking => UpdateStatus::Checking,
            UpdateStatus::UpToDate => UpdateStatus::UpToDate,
            UpdateStatus::Available { version } => UpdateStatus::Available {
                version: version.clone(),
            },
            UpdateStatus::Downloading { version, progress } => UpdateStatus::Downloading {
                version: version.clone(),
                progress: *progress,
            },
            UpdateStatus::Ready { version } => UpdateStatus::Ready { version: version.clone() },
            UpdateStatus::Installing { version } => UpdateStatus::Installing {
                version: version.clone(),
            },
            UpdateStatus::Installed { version } => UpdateStatus::Installed {
                version: version.clone(),
            },
            UpdateStatus::Error { message } => UpdateStatus::Error { message: message.clone() },
        }
    }
}

/// What the taskbar says about a status.
pub open spec fn status_activity(status: StatusView) -> Activity {
    match status {
        StatusView::Checking => Activity::Indeterminate,
        StatusView::Available { .. } => Activity::Indeterminate,
        StatusView::Installing { .. } => Activity::Indeterminate,
        StatusView::Downloading { progress, .. } => match progress {
            Some(percent) => Activity::Progress(percent),
            None => Activity::Indeterminate,
        },
        StatusView::Ready { .. } => Activity::Idle,
        StatusView::UpToDate => Activity::Idle,
        StatusView::Installed { .. } => Activity::Idle,
        StatusView::Error { .. } => Activity::Error,
    }
}

fn activity(status: &UpdateStatus) -> (r: Activity)
    ensures
        r == status_activity(status@),
{
    match status {
        UpdateStatus::Checking => Activity::Indeterminate,
        UpdateStatus::Available { .. } => Activity::Indeterminate,
        UpdateStatus::Installing { .. } => Activity::Indeterminate,
        UpdateStatus::Downloading { progress, .. } => match *progress {
            Some(percent) => Activity::Progress(percent),
            None => Activity::Indeterminate,
        },
        UpdateStatus::Ready { .. } => Activity::Idle,
        UpdateStatus::UpToDate => Activity::Idle,
        UpdateStatus::Installed { .. } => Activity::Idle,
        UpdateStatus::Error { .. } => Activity::Error,
    }
}

/// How much of a download has arrived, in percent; unknown where the length is.
pub open spec fn percentage(downloaded: u64, content_length: Option<u64>) -> Option<int> {
    match content_length {
        None => None,
        Some(total) => if total == 0 {
            None
        } else if downloaded >= total {
            Some(100)
        } else {
            Some(downloaded * 100 / total as int)
        },
    }
}

/// How much of a download has arrived, in percent.
pub fn download_percentage(downloaded: u64, content_length: Option<u64>) -> (r: Option<u8>)
    ensures
        match r {
            Some(percent) => {
                &&& percentage(downloaded, content_length) == Some(percent as int)
                &&& percent <= 100
            },
            None => percentage(downloaded, content_length) is None,
        },
{
    match content_length {
        None => None,
        Some(total) => {
            if total == 0 {
                return None;
            }
            let arrived: u64 = if downloaded < total {
                downloaded
            } else {
                total
            };
            let percent: u128 = arrived as u128 * 100 / total as u128;
            proof {
                let a = arrived as int;
                let t = total as int;
                assert(a * 100 / t <= 100) by (nonlinear_arith)
                    requires
                        0 <= a <= t,
                        t > 0,
                ;
                assert(a * 100 / t >= 0) by (nonlinear_arith)
                    requires
                        0 <= a,
                        t > 0,
                ;
                if a == t {
                    assert(t * 100 / t == 100) by (nonlinear_arith)
                        requires
                            t > 0,
                    ;
                }
            }
            Some(percent as u8)
        },
    }
}

/// The percentage never goes back as more arrives, stays within 100, and is 100
/// once everything is there.
pub proof fn law_progress_never_goes_back(earlier: u64, later: u64, total: u64)
    requires
        earlier <= later,
        total > 0,
    ensures
        0 <= percentage(earlier, Some(total))->0 <= percentage(later, Some(total))->0 <= 100,
        later >= total ==> percentage(later, Some(total)) == Some(100int),
{
    let t = total as int;
    let a = earlier as int;
    let b = later as int;
    assert(0 <= a * 100 / t) by (nonlinear_arith)
        requires
            0 <= a,
            t > 0,
    ;
    if a < t {
        assert(a * 100 / t <= 100) by (nonlinear_arith)
            requires
                0 <= a < t,
    ;
    }
    if b < t {
        assert(b * 100 / t <= 100) by (nonlinear_arith)
            requires
                0 <= b < t,
    ;
        assert(a * 100 / t <= b * 100 / t) by (nonlinear_arith)
            requires
                0 <= a <= b,
                t > 0,
    ;
    }
}

/// Why a prepared update cannot be installed.
#[derive(Debug)]
pub enum PreparedBytesError {
    /// It could not be read.
    Read(String),
    /// It is not what was downloaded.
    Integrity(String),
}

impl PreparedBytesError {
    /// What the error says.
    pub open spec fn text(self) -> Seq<char> {
        match self {
            PreparedBytesError::Read(message) => message@,
            PreparedBytesError::Integrity(message) => message@,
        }
    }

    /// What the error says.
    pub fn message(self) -> (r: String)
        ensures
            r@ == self.text(),
    {
        match self {
            PreparedBytesError::Read(message) => message,
            PreparedBytesError::Integrity(message) => message,
        }
    }

    /// Whether the update is damaged.
    pub fn is_integrity(&self) -> (r: bool)
        ensures
            r == (self is Integrity),
    {
        match self {
            PreparedBytesError::Integrity(_) => true,
            PreparedBytesError::Read(_) => false,
        }
    }

    /// The update could not be read.
    pub fn unreadable(error: &str) -> (r: Self)
        ensures
            r is Read,
            r.text() == "Vorbereitete Aktualisierung konnte nicht gelesen werden: "@ + error@,
    {
        PreparedBytesError::Read(
            joined("Vorbereitete Aktualisierung konnte nicht gelesen werden: ", error),
        )
    }
}

/// A downloaded update with what its bytes must be.
pub struct PreparedUpdate<U> {
    pub update: U,
    pub version: String,
    pub length: u64,
    pub digest: [u8; 32],
}

/// Whether bytes are those of a prepared update, given their digest.
pub open spec fn is_genuine<U>(prepared: PreparedUpdate<U>, bytes: Seq<u8>, digest: Seq<u8>) -> bool {
    bytes.len() == prepared.length && digest == prepared.digest@
}

/// What is told of bytes that are not those of a prepared update.
pub open spec fn damage_text<U>(prepared: PreparedUpdate<U>, bytes: Seq<u8>) -> Seq<char> {
    if bytes.len() != prepared.length {
        "Vorbereitete Aktualisierung ist unvollständig"@
    } else {
        "Vorbereitete Aktualisierung hat die Integritätsprüfung nicht bestanden"@
    }
}

/// Why a prepared update cannot be installed with what was read back, and whether it is
/// damaged.
pub open spec fn read_error<U>(
    prepared: PreparedUpdate<U>,
    bytes: Result<Vec<u8>, PreparedBytesError>,
) -> Option<(bool, Seq<char>)> {
    match bytes {
        Ok(bytes) => if is_genuine(prepared, bytes@, sha256_of(bytes@)) {
            None
        } else {
            Some((true, damage_text(prepared, bytes@)))
        },
        Err(error) => Some((error is Integrity, error.text())),
    }
}

fn same_digest(a: &[u8; 32], b: &[u8; 32]) -> (r: bool)
    ensures
        r == (a@ == b@),
{
    let mut i: usize = 0;
    while i < 32
        invariant
            i <= 32,
            forall|j: int| 0 <= j < i ==> a@[j] == b@[j],
        decreases 32 - i,
    {
        if a[i] != b[i] {
            return false;
        }
        i += 1;
    }
    assert(a@ =~= b@);
    true
}

impl<U> PreparedUpdate<U> {
    /// Records what was downloaded.
    pub fn prepare(update: U, version: String, bytes: &Vec<u8>) -> (r: Self)
        ensures
            r.update == update,
            r.version == version,
            r.length == bytes@.len(),
            r.digest@ == sha256_of(bytes@),
    {
        PreparedUpdate { update, version, length: bytes.len() as u64, digest: sha256(bytes) }
    }

    /// How many bytes are read at most: one more than there should be, so that a
    /// longer file is noticed.
    pub fn read_limit(&self) -> (r: Result<u64, PreparedBytesError>)
        ensures
            match r {
                Ok(limit) => limit == self.length + 1,
                Err(e) => e is Integrity && e.text() == "Vorbereitete Aktualisierung ist zu groß"@,
            },
            r is Ok <==> self.length < u64::MAX && self.length <= usize::MAX,
    {
        if self.length == u64::MAX || self.length > usize::MAX as u64 {
            return Err(
                PreparedBytesError::Integrity("Vorbereitete Aktualisierung ist zu groß".to_owned()),
            );
        }
        Ok(self.length + 1)
    }

    /// Accepts bytes with the given digest where they are those of the update.
    pub fn check_bytes(&self, bytes: Vec<u8>, digest: [u8; 32]) -> (r: Result<
        Vec<u8>,
        PreparedBytesError,
    >)
        ensures
            match r {
                Ok(checked) => checked@ == bytes@ && is_genuine(*self, bytes@, digest@),
                Err(e) => {
                    &&& e is Integrity
                    &&& !is_genuine(*self, bytes@, digest@)
                    &&& e.text() == damage_text(*self, bytes@)
                },
            },
    {
        if bytes.len() as u64 != self.length {
            return Err(
                PreparedBytesError::Integrity(
                    "Vorbereitete Aktualisierung ist unvollständig".to_owned(),
                ),
            );
        }
        if !same_digest(&digest, &self.digest) {
            return Err(
                PreparedBytesError::Integrity(
                    "Vorbereitete Aktualisierung hat die Integritätsprüfung nicht bestanden".to_owned(),
                ),
            );
        }
        Ok(bytes)
    }

    /// Accepts the bytes that were read back where they are those of the update.
    pub fn read_verified_bytes(&self, bytes: Vec<u8>) -> (r: Result<Vec<u8>, PreparedBytesError>)
        ensures
            match r {
                Ok(checked) => {
                    &&& checked@ == bytes@
                    &&& is_genuine(*self, bytes@, sha256_of(bytes@))
                },
                Err(e) => {
                    &&& e is Integrity
                    &&& !is_genuine(*self, bytes@, sha256_of(bytes@))
                    &&& e.text() == damage_text(*self, bytes@)
                },
            },
    {
        let digest = sha256(&bytes);
        self.check_bytes(bytes, digest)
    }
}

/// The share of a download is the whole number of hundredths that have arrived; it is
/// unknown where the length is unknown or nothing.
pub proof fn law_share_is_what_has_arrived(downloaded: u64, total: u64)
    ensures
        percentage(downloaded, None) is None,
        percentage(downloaded, Some(0)) is None,
        0 < total && downloaded < total ==> ({
            let share = percentage(downloaded, Some(total))->0;
            &&& percentage(downloaded, Some(total)) is Some
            &&& share * total <= downloaded * 100
            &&& downloaded * 100 < share * total + total
        }),
        0 < total <= downloaded ==> percentage(downloaded, Some(total)) == Some(100int),
{
    if 0 < total && downloaded < total {
        let t = total as int;
        let amount = downloaded * 100;
        let share = amount / t;
        assert(share * t <= amount < share * t + t) by (nonlinear_arith)
            requires
                share == amount / t,
                t > 0,
        ;
    }
}

/// The taskbar button moves while something goes on that takes no known time, shows the
/// share of a download, turns to an error on one, and rests otherwise.
pub proof fn law_taskbar_follows_the_status(status: StatusView)
    ensures
        match status {
            StatusView::Checking => status_activity(status) == Activity::Indeterminate,
            StatusView::UpToDate => status_activity(status) == Activity::Idle,
            StatusView::Available { .. } => status_activity(status) == Activity::Indeterminate,
            StatusView::Downloading { progress, .. } => {
                &&& progress is None ==> status_activity(status) == Activity::Indeterminate
                &&& progress is Some ==> status_activity(status) == Activity::Progress(progress->0)
            },
            StatusView::Ready { .. } => status_activity(status) == Activity::Idle,
            StatusView::Installing { .. } => status_activity(status) == Activity::Indeterminate,
            StatusView::Installed { .. } => status_activity(status) == Activity::Idle,
            StatusView::Error { .. } => status_activity(status) == Activity::Error,
        },
{
}

/// What was read is refused as damaged exactly where its length or its digest is not
/// that of the download; a length that is off is told as such.
pub proof fn law_damage_is_noticed<U>(prepared: PreparedUpdate<U>, bytes: Vec<u8>)
    ensures
        read_error(prepared, Ok(bytes)) is None <==> bytes@.len() == prepared.length && sha256_of(
            bytes@,
        ) == prepared.digest@,
        bytes@.len() != prepared.length ==> read_error(prepared, Ok(bytes)) == Some(
            (true, "Vorbereitete Aktualisierung ist unvollständig"@),
        ),
        bytes@.len() == prepared.length && sha256_of(bytes@) != prepared.digest@ ==> read_error(
            prepared,
            Ok(bytes),
        ) == Some(
            (true, "Vorbereitete Aktualisierung hat die Integritätsprüfung nicht bestanden"@),
        ),
{
}

/// What was downloaded is accepted when it is read back unchanged; anything of
/// another length or another digest is refused.
pub proof fn law_only_the_download_is_accepted<U>(
    prepared: PreparedUpdate<U>,
    downloaded: Seq<u8>,
    read: Seq<u8>,
)
    requires
        prepared.length == downloaded.len(),
        prepared.digest@ == sha256_of(downloaded),
    ensures
        is_genuine(prepared, downloaded, sha256_of(downloaded)),
        is_genuine(prepared, read, sha256_of(read)) <==> read.len() == downloaded.len()
            && sha256_of(read) == sha256_of(downloaded),
{
}

/// The update that waits for its installation.
pub enum PendingUpdate<U> {
    Empty,
    Ready(PreparedUpdate<U>),
    Installing,
}

/// Why there is no update to install.
#[derive(Clone, Copy, Debug, PartialEq, Eq, Structural)]
pub enum ClaimError {
    Empty,
    Busy,
}

/// What waits after a claim, and what the claim gave.
pub open spec fn claimed<U>(pending: PendingUpdate<U>) -> (
    PendingUpdate<U>,
    Result<PreparedUpdate<U>, ClaimError>,
) {
    match pending {
        PendingUpdate::Ready(prepared) => (PendingUpdate::Installing, Ok(prepared)),
        PendingUpdate::Empty => (pending, Err(ClaimError::Empty)),
        PendingUpdate::Installing => (pending, Err(ClaimError::Busy)),
    }
}

/// What waits after a claimed update was given back.
pub open spec fn restored<U>(pending: PendingUpdate<U>, prepared: PreparedUpdate<U>) ->
    PendingUpdate<U> {
    if pending is Installing {
        PendingUpdate::Ready(prepared)
    } else {
        pending
    }
}

/// What waits after a claim was ended.
pub open spec fn finished<U>(pending: PendingUpdate<U>) -> PendingUpdate<U> {
    if pending is Installing {
        PendingUpdate::Empty
    } else {
        pending
    }
}

/// What waits after a prepared update was offered.
pub open spec fn stored<U>(pending: PendingUpdate<U>, prepared: PreparedUpdate<U>) ->
    PendingUpdate<U> {
    if pending is Empty {
        PendingUpdate::Ready(prepared)
    } else {
        pending
    }
}

/// What is known about updates.
pub struct UpdateState<U> {
    pub status: Option<UpdateStatus>,
    pub pending: PendingUpdate<U>,
}

/// What a known status says.
pub open spec fn known(status: Option<UpdateStatus>) -> Option<StatusView> {
    match status {
        Some(status) => Some(status@),
        None => None,
    }
}

impl<U> UpdateState<U> {
    /// Nothing is known.
    pub fn new() -> (r: Self)
        ensures
            r.status is None,
            r.pending is Empty,
    {
        UpdateState { status: None, pending: PendingUpdate::Empty }
    }

    /// Replaces the status; false where nothing changes.
    pub fn replace_if_changed(&mut self, status: UpdateStatus) -> (r: bool)
        ensures
            r == (known(old(self).status) != Some(status@)),
            known(final(self).status) == Some(status@),
            final(self).pending == old(self).pending,
    {
        let same = match &self.status {
            Some(current) => current.same(&status),
            None => false,
        };
        if same {
            return false;
        }
        self.status = Some(status);
        true
    }

    /// The current status.
    pub fn snapshot(&self) -> (r: Option<UpdateStatus>)
        ensures
            known(r) == known(self.status),
    {
        match &self.status {
            Some(status) => Some(status.copy()),
            None => None,
        }
    }

    /// Keeps a prepared update, unless there is one already.
    pub fn store_pending(&mut self, prepared: PreparedUpdate<U>) -> (r: Result<
        (),
        PreparedUpdate<U>,
    >)
        ensures
            final(self).status == old(self).status,
            final(self).pending == stored(old(self).pending, prepared),
            r == (if old(self).pending is Empty {
                Ok(())
            } else {
                Err(prepared)
            }),
    {
        let empty = match &self.pending {
            PendingUpdate::Empty => true,
            _ => false,
        };
        if !empty {
            return Err(prepared);
        }
        self.pending = PendingUpdate::Ready(prepared);
        Ok(())
    }

    /// Takes the prepared update for its installation.
    pub fn claim_pending(&mut self) -> (r: Result<PreparedUpdate<U>, ClaimError>)
        ensures
            final(self).status == old(self).status,
            (final(self).pending, r) == claimed(old(self).pending),
    {
        let mut taken: PendingUpdate<U> = PendingUpdate::Installing;
        std::mem::swap(&mut taken, &mut self.pending);
        match taken {
            PendingUpdate::Ready(prepared) => Ok(prepared),
            PendingUpdate::Empty => {
                self.pending = PendingUpdate::Empty;
                Err(ClaimError::Empty)
            },
            PendingUpdate::Installing => Err(ClaimError::Busy),
        }
    }

    /// Gives a claimed update back.
    pub fn restore_claim(&mut self, prepared: PreparedUpdate<U>)
        ensures
            final(self).status == old(self).status,
            final(self).pending == restored(old(self).pending, prepared),
    {
        let claimed = match &self.pending {
            PendingUpdate::Installing => true,
            _ => false,
        };
        if claimed {
            self.pending = PendingUpdate::Ready(prepared);
        }
    }

    /// Ends a claim: there is no update any more.
    pub fn finish_claim(&mut self)
        ensures
            final(self).status == old(self).status,
            final(self).pending == finished(old(self).pending),
    {
        let claimed = match &self.pending {
            PendingUpdate::Installing => true,
            _ => false,
        };
        if claimed {
            self.pending = PendingUpdate::Empty;
        }
    }
}

/// What the shell does, in order.
pub enum ShellEffect {
    /// Redraw the taskbar button.
    Taskbar(Presentation),
    /// Tell the window about the status.
    Status(UpdateStatus),
}

/// What an effect says.
pub enum ShellView {
    Taskbar(Presentation),
    Status(StatusView),
}

impl View for ShellEffect {
    type V = ShellView;

    open spec fn view(&self) -> ShellView {
        match *self {
            ShellEffect::Taskbar(presentation) => ShellView::Taskbar(presentation),
            ShellEffect::Status(status) => ShellView::Status(status@),
        }
    }
}

/// What a list of effects says.
pub open spec fn shell_view(effects: Seq<ShellEffect>) -> Seq<ShellView> {
    effects.map_values(|e: ShellEffect| e@)
}

/// What the updater, the taskbar and the shell look like.
#[verifier::ext_equal]
pub struct ShellModel {
    pub status: Option<StatusView>,
    pub signals: taskbar::Signals,
    pub effects: Seq<ShellView>,
}

/// After a status was announced: the taskbar follows it, and a status that is not
/// the current one is told.
pub open spec fn announced(m: ShellModel, status: StatusView) -> ShellModel {
    let signals = taskbar::Signals { update: status_activity(status), ..m.signals };
    let redrawn = match taskbar::change(m.signals, signals) {
        Some(presentation) => m.effects.push(ShellView::Taskbar(presentation)),
        None => m.effects,
    };
    ShellModel {
        status: Some(status),
        signals,
        effects: if m.status != Some(status) {
            redrawn.push(ShellView::Status(status))
        } else {
            redrawn
        },
    }
}

/// The updater with the taskbar that follows it.
pub struct Updater<U> {
    pub state: UpdateState<U>,
    pub taskbar: TaskbarState,
}

/// The answer when there is nothing to install.
pub open spec fn nothing_prepared() -> Seq<char> {
    "Keine vorbereitete Aktualisierung verfügbar"@
}

/// What became of saving the project before an installation.
pub enum FlushOutcome {
    /// The studio has nothing running that could be saved.
    NoRuntime,
    /// Saving failed.
    Failed(String),
    /// The project is saved.
    Saved,
}

/// Why saving the project stops an installation.
pub open spec fn flush_error(outcome: FlushOutcome) -> Option<Seq<char>> {
    match outcome {
        FlushOutcome::NoRuntime => Some("Updater-Laufzeitstatus ist nicht verfügbar"@),
        FlushOutcome::Failed(error) => Some(
            "Projekt konnte vor der Installation nicht gespeichert werden: "@ + error@,
        ),
        FlushOutcome::Saved => None,
    }
}

/// The text of a failed result.
pub open spec fn error_text<A>(result: Result<A, String>) -> Option<Seq<char>> {
    match result {
        Ok(_) => None,
        Err(message) => Some(message@),
    }
}

impl<U> Updater<U> {
    /// What the updater and a list of effects say.
    pub open spec fn model(self, effects: Seq<ShellEffect>) -> ShellModel {
        ShellModel {
            status: known(self.state.status),
            signals: self.taskbar.signals,
            effects: shell_view(effects),
        }
    }

    /// Nothing is known.
    pub fn new() -> (r: Self)
        ensures
            r.state.status is None,
            r.state.pending is Empty,
            r.taskbar.signals == (taskbar::Signals {
                update: Activity::Idle,
                device: Activity::Idle,
            }),
    {
        Updater { state: UpdateState::new(), taskbar: TaskbarState::new() }
    }

    /// Announces a status.
    pub fn emit(&mut self, status: UpdateStatus, effects: &mut Vec<ShellEffect>)
        ensures
            final(self).state.pending == old(self).state.pending,
            final(self).model(final(effects)@) == announced(
                old(self).model(old(effects)@),
                status@,
            ),
    {
        let ghost goal = announced(self.model(effects@), status@);
        match self.taskbar.set_update(activity(&status)) {
            Some(presentation) => {
                let ghost before = effects@;
                effects.push(ShellEffect::Taskbar(presentation));
                assert(shell_view(effects@) =~= shell_view(before).push(
                    ShellView::Taskbar(presentation),
                ));
            },
            None => {},
        }
        if self.state.replace_if_changed(status.copy()) {
            let ghost before = effects@;
            effects.push(ShellEffect::Status(status));
            assert(shell_view(effects@) =~= shell_view(before).push(ShellView::Status(status@)));
        }
        assert(self.model(effects@) =~= goal);
    }

    /// The first step of an installation: takes the prepared update.
    pub fn begin_install(&mut self, effects: &mut Vec<ShellEffect>) -> (r: Result<
        PreparedUpdate<U>,
        String,
    >)
        ensures
            match old(self).state.pending {
                PendingUpdate::Ready(prepared) => {
                    &&& r == Ok::<PreparedUpdate<U>, String>(prepared)
                    &&& final(self).state.pending is Installing
                    &&& final(self).model(final(effects)@) == old(self).model(old(effects)@)
                },
                PendingUpdate::Empty => {
                    &&& error_text(r) == Some(nothing_prepared())
                    &&& final(self).state.pending is Empty
                    &&& final(self).model(final(effects)@) == announced(
                        old(self).model(old(effects)@),
                        StatusView::Error { message: nothing_prepared() },
                    )
                },
                PendingUpdate::Installing => {
                    &&& error_text(r) == Some("Aktualisierung wird bereits installiert"@)
                    &&& final(self).state.pending is Installing
                    &&& final(self).model(final(effects)@) == old(self).model(old(effects)@)
                },
            },
    {
        match self.state.claim_pending() {
            Ok(prepared) => Ok(prepared),
            Err(ClaimError::Empty) => {
                self.emit(
                    UpdateStatus::Error {
                        message: "Keine vorbereitete Aktualisierung verfügbar".to_owned(),
                    },
                    effects,
                );
                Err("Keine vorbereitete Aktualisierung verfügbar".to_owned())
            },
            Err(ClaimError::Busy) => Err("Aktualisierung wird bereits installiert".to_owned()),
        }
    }

    /// The installation stops; the update can be installed later.
    fn hand_back(
        &mut self,
        prepared: PreparedUpdate<U>,
        message: String,
        effects: &mut Vec<ShellEffect>,
    ) -> (r: String)
        requires
            old(self).state.pending is Installing,
        ensures
            r == message,
            final(self).state.pending == PendingUpdate::Ready(prepared),
            final(self).model(final(effects)@) == announced(
                old(self).model(old(effects)@),
                StatusView::Ready { version: prepared.version@ },
            ),
    {
        let version = prepared.version.clone();
        self.state.restore_claim(prepared);
        self.emit(UpdateStatus::Ready { version }, effects);
        message
    }

    /// Takes the bytes of the claimed update as they were read back, or why they could
    /// not be read, and checks them. A damaged update is given up; one that could not
    /// be read stays ready.
    pub fn on_read(
        &mut self,
        prepared: PreparedUpdate<U>,
        bytes: Result<Vec<u8>, PreparedBytesError>,
        effects: &mut Vec<ShellEffect>,
    ) -> (r: Result<(PreparedUpdate<U>, Vec<u8>), String>)
        requires
            old(self).state.pending is Installing,
        ensures
            match read_error(prepared, bytes) {
                None => {
                    &&& r matches Ok((claimed, checked))
                    &&& claimed == prepared
                    &&& checked@ == bytes->Ok_0@
                    &&& is_genuine(prepared, checked@, sha256_of(checked@))
                    &&& *final(self) == *old(self)
                    &&& final(effects)@ == old(effects)@
                },
                Some((damaged, text)) => {
                    &&& error_text(r) == Some(text)
                    &&& if damaged {
                        &&& final(self).state.pending is Empty
                        &&& final(self).model(final(effects)@) == announced(
                            old(self).model(old(effects)@),
                            StatusView::Error { message: text },
                        )
                    } else {
                        &&& final(self).state.pending == PendingUpdate::Ready(prepared)
                        &&& final(self).model(final(effects)@) == announced(
                            old(self).model(old(effects)@),
                            StatusView::Ready { version: prepared.version@ },
                        )
                    }
                },
            },
    {
        let checked = match bytes {
            Ok(bytes) => prepared.read_verified_bytes(bytes),
            Err(error) => Err(error),
        };
        match checked {
            Ok(checked) => Ok((prepared, checked)),
            Err(error) => {
                let damaged = error.is_integrity();
                let message = error.message();
                if damaged {
                    self.state.finish_claim();
                    self.emit(UpdateStatus::Error { message: message.clone() }, effects);
                    Err(message)
                } else {
                    Err(self.hand_back(prepared, message, effects))
                }
            },
        }
    }

    /// Takes the outcome of saving the project. Once it is saved the installation
    /// is announced.
    pub fn on_flushed(
        &mut self,
        prepared: PreparedUpdate<U>,
        outcome: FlushOutcome,
        effects: &mut Vec<ShellEffect>,
    ) -> (r: Result<PreparedUpdate<U>, String>)
        requires
            old(self).state.pending is Installing,
        ensures
            error_text(r) == flush_error(outcome),
            match outcome {
                FlushOutcome::Saved => {
                    &&& r == Ok::<PreparedUpdate<U>, String>(prepared)
                    &&& final(self).state.pending is Installing
                    &&& final(self).model(final(effects)@) == announced(
                        old(self).model(old(effects)@),
                        StatusView::Installing { version: prepared.version@ },
                    )
                },
                _ => {
                    &&& final(self).state.pending == PendingUpdate::Ready(prepared)
                    &&& final(self).model(final(effects)@) == announced(
                        old(self).model(old(effects)@),
                        StatusView::Ready { version: prepared.version@ },
                    )
                },
            },
    {
        match outcome {
            FlushOutcome::NoRuntime => {
                let message = "Updater-Laufzeitstatus ist nicht verfügbar".to_owned();
                Err(self.hand_back(prepared, message, effects))
            },
            FlushOutcome::Failed(error) => {
                let message = joined(
                    "Projekt konnte vor der Installation nicht gespeichert werden: ",
                    error.as_str(),
                );
                Err(self.hand_back(prepared, message, effects))
            },
            FlushOutcome::Saved => {
                self.emit(
                    UpdateStatus::Installing { version: prepared.version.clone() },
                    effects,
                );
                Ok(prepared)
            },
        }
    }

    /// Takes the result of the installer. After a success the studio restarts.
    pub fn on_installed(
        &mut self,
        prepared: PreparedUpdate<U>,
        result: Result<(), String>,
        effects: &mut Vec<ShellEffect>,
    ) -> (r: Result<(), String>)
        requires
            old(self).state.pending is Installing,
        ensures
            match result {
                Ok(()) => {
                    &&& r is Ok
                    &&& final(self).state.pending is Empty
                    &&& final(self).model(final(effects)@) == announced(
                        old(self).model(old(effects)@),
                        StatusView::Installed { version: prepared.version@ },
                    )
                },
                Err(error) => {
                    &&& error_text(r) == Some(
                        "Aktualisierung konnte nicht gestartet werden: "@ + error@,
                    )
                    &&& final(self).state.pending == PendingUpdate::Ready(prepared)
                    &&& final(self).model(final(effects)@) == announced(
                        old(self).model(old(effects)@),
                        StatusView::Ready { version: prepared.version@ },
                    )
                },
            },
    {
        match result {
            Ok(()) => {
                let version = prepared.version.clone();
                self.state.finish_claim();
                self.emit(UpdateStatus::Installed { version }, effects);
                Ok(())
            },
            Err(error) => {
                let message = joined(
                    "Aktualisierung konnte nicht gestartet werden: ",
                    error.as_str(),
                );
                Err(self.hand_back(prepared, message, effects))
            },
        }
    }

    /// Takes the result of looking for an update: the version of a new one, whose
    /// download then begins.
    pub fn on_checked(&mut self, version: Option<String>, effects: &mut Vec<ShellEffect>) -> (r:
        Option<Download>)
        ensures
            final(self).state.pending == old(self).state.pending,
            match version {
                None => {
                    &&& r is None
                    &&& final(self).model(final(effects)@) == announced(
                        old(self).model(old(effects)@),
                        StatusView::UpToDate,
                    )
                },
                Some(version) => {
                    &&& r is Some
                    &&& r->0.version == version
                    &&& r->0.downloaded == 0
                    &&& final(self).model(final(effects)@) == announced(
                        announced(
                            old(self).model(old(effects)@),
                            StatusView::Available { version: version@ },
                        ),
                        StatusView::Downloading { version: version@, progress: None },
                    )
                },
            },
    {
        match version {
            None => {
                self.emit(UpdateStatus::UpToDate, effects);
                None
            },
            Some(version) => {
                self.emit(UpdateStatus::Available { version: version.clone() }, effects);
                self.emit(
                    UpdateStatus::Downloading { version: version.clone(), progress: None },
                    effects,
                );
                Some(Download { version, downloaded: 0 })
            },
        }
    }

    /// Takes a piece of a download.
    pub fn on_chunk(
        &mut self,
        download: &mut Download,
        chunk_length: usize,
        content_length: Option<u64>,
        effects: &mut Vec<ShellEffect>,
    )
        ensures
            final(self).state.pending == old(self).state.pending,
            final(download).version == old(download).version,
            final(download).downloaded == arrived(old(download).downloaded, chunk_length),
            ({
                let percent = percentage(final(download).downloaded, content_length);
                final(self).model(final(effects)@) == announced(
                    old(self).model(old(effects)@),
                    StatusView::Downloading {
                        version: old(download).version@,
                        progress: match percent {
                            Some(percent) => Some(percent as u8),
                            None => None,
                        },
                    },
                )
            }),
    {
        download.downloaded = download.downloaded.saturating_add(chunk_length as u64);
        let progress = download_percentage(download.downloaded, content_length);
        self.emit(
            UpdateStatus::Downloading { version: download.version.clone(), progress },
            effects,
        );
    }

    /// Takes a finished download, which is then ready to be installed; a second one
    /// is refused.
    pub fn on_downloaded(&mut self, prepared: PreparedUpdate<U>, effects: &mut Vec<ShellEffect>) ->
        (r: Result<(), String>)
        ensures
            if old(self).state.pending is Empty {
                &&& r is Ok
                &&& final(self).state.pending == PendingUpdate::Ready(prepared)
                &&& final(self).model(final(effects)@) == announced(
                    old(self).model(old(effects)@),
                    StatusView::Ready { version: prepared.version@ },
                )
            } else {
                &&& error_text(r) == Some("Es ist bereits eine Aktualisierung vorbereitet"@)
                &&& *final(self) == *old(self)
                &&& final(effects)@ == old(effects)@
            },
    {
        let version = prepared.version.clone();
        match self.state.store_pending(prepared) {
            Ok(()) => {
                self.emit(UpdateStatus::Ready { version }, effects);
                Ok(())
            },
            Err(_) => Err("Es ist bereits eine Aktualisierung vorbereitet".to_owned()),
        }
    }
}

/// A running download.
pub struct Download {
    pub version: String,
    pub downloaded: u64,
}

/// How much has arrived after one more piece; the count stops at its maximum.
pub open spec fn arrived(downloaded: u64, chunk: usize) -> u64 {
    if downloaded + chunk <= u64::MAX {
        (downloaded + chunk) as u64
    } else {
        u64::MAX
    }
}

/// A status is told exactly where it is a new one, and it is the one that is known from
/// then on; the signals of everything else stay.
pub proof fn law_new_status_is_told(m: ShellModel, status: StatusView)
    ensures
        announced(m, status).status == Some(status),
        announced(m, status).signals.update == status_activity(status),
        m.status != Some(status) ==> announced(m, status).effects.last() == ShellView::Status(
            status,
        ),
        m.status == Some(status) && m.signals.update == status_activity(status) ==> announced(
            m,
            status,
        ).effects == m.effects,
        announced(m, status).effects.len() <= m.effects.len() + 2,
        m.effects.is_prefix_of(announced(m, status).effects),
{
}

/// Nothing is installed over a project that could not be saved.
pub proof fn law_only_a_saved_project_is_left(outcome: FlushOutcome)
    ensures
        flush_error(outcome) is None <==> outcome == FlushOutcome::Saved,
{
}

/// What has arrived adds up, and stays at the largest number where it would exceed it.
pub proof fn law_arrived_bytes_add_up(downloaded: u64, chunk: usize)
    ensures
        downloaded <= arrived(downloaded, chunk),
        downloaded + chunk <= u64::MAX ==> arrived(downloaded, chunk) - downloaded == chunk,
        downloaded + chunk > u64::MAX ==> arrived(downloaded, chunk) == u64::MAX,
{
}

/// A status is told once, and announcing it again changes nothing.
pub proof fn law_same_status_is_told_once(m: ShellModel, status: StatusView)
    ensures
        announced(announced(m, status), status) == announced(m, status),
{
}

/// While an update is being installed nobody else can claim it and no other can
/// take its place; given back it is ready again as it was, so that the installation
/// can be tried anew, and a finished one leaves room for the next.
pub proof fn law_claim_is_exclusive<U>(
    prepared: PreparedUpdate<U>,
    other: PreparedUpdate<U>,
)
    ensures
        ({
            let ready = PendingUpdate::Ready(prepared);
            let taken = claimed(ready).0;
            &&& claimed(ready).1 == Ok::<PreparedUpdate<U>, ClaimError>(prepared)
            &&& claimed(taken) == (
                taken,
                Err::<PreparedUpdate<U>, ClaimError>(ClaimError::Busy),
            )
            &&& stored(taken, other) == taken
            &&& restored(taken, prepared) == ready
            &&& stored(finished(taken), other) == PendingUpdate::Ready(other)
        }),
{
}

} // verus!
