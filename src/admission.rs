use vstd::prelude::*;

use crate::store::{create_outcome, gallery_of_channel, Gallery, GalleryStore, StoreError};

verus! {

/// Why an admission failed.
#[derive(PartialEq, Eq, Structural, Clone, Copy, Debug)]
pub enum AdmissionError {
    /// Another admission for the channel got there first.
    Conflict,
    /// The store failed.
    Storage,
    /// The channel's metadata could not be fetched.
    ExternalFetch,
}

/// How an admission command ended.
#[derive(Debug, PartialEq, Eq)]
pub enum Admission {
    Created(Gallery),
    /// The channel already had a gallery; nothing was written.
    AlreadyExists,
    Failed(AdmissionError),
}

/// What admission does once the lookup for the channel has answered.
#[derive(Debug, PartialEq, Eq)]
pub enum AdmissionStep {
    /// Admission ends here.
    Done(Admission),
    /// Fetch the channel's name, then create the gallery.
    FetchChannel,
}

/// The admission error that a store error becomes.
pub open spec fn admission_error_of(e: StoreError) -> AdmissionError {
    match e {
        StoreError::Conflict => AdmissionError::Conflict,
        _ => AdmissionError::Storage,
    }
}

/// The notice sent for an already admitted channel.
pub open spec fn already_exists_notice() -> Seq<char> {
    "A gallery for this channel already exists."@
}

/// The notice sent when admission failed.
pub open spec fn failure_notice() -> Seq<char> {
    "An error occurred while running the command."@
}

/// The admission error that a store error becomes: a uniqueness violation
/// stays a `Conflict`, anything else is a storage failure.
pub fn admission_error(e: StoreError) -> (r: AdmissionError)
    ensures
        r == admission_error_of(e),
{
    match e {
        StoreError::Conflict => AdmissionError::Conflict,
        _ => AdmissionError::Storage,
    }
}

/// What admission does once the lookup for the channel has answered: a
/// channel with a gallery gets the notice and nothing more.
pub fn admission_after_lookup(lookup: &Result<Option<Gallery>, StoreError>) -> (r: AdmissionStep)
    ensures
        match lookup {
            Err(e) => r == AdmissionStep::Done(Admission::Failed(admission_error_of(*e))),
            Ok(Some(_)) => r == AdmissionStep::Done(Admission::AlreadyExists),
            Ok(None) => r == AdmissionStep::FetchChannel,
        },
{
    match lookup {
        Err(e) => AdmissionStep::Done(Admission::Failed(admission_error(*e))),
        Ok(Some(_)) => AdmissionStep::Done(Admission::AlreadyExists),
        Ok(None) => AdmissionStep::FetchChannel,
    }
}

/// How admission ends once the insert has answered. An insert that lost a
/// race on the channel's uniqueness is a `Conflict`.
pub fn admission_after_insert(inserted: Result<Gallery, StoreError>) -> (r: Admission)
    ensures
        match inserted {
            Ok(g) => r == Admission::Created(g),
            Err(e) => r == Admission::Failed(admission_error_of(e)),
        },
{
    match inserted {
        Ok(g) => Admission::Created(g),
        Err(e) => Admission::Failed(admission_error(e)),
    }
}

impl Admission {
    /// The notice for the channel that issued the command, if any.
    pub open spec fn notice(&self) -> Option<Seq<char>> {
        match self {
            Admission::Created(_) => None,
            Admission::AlreadyExists => Some(already_exists_notice()),
            Admission::Failed(_) => Some(failure_notice()),
        }
    }

    /// The notice to send to the channel that issued the command, if any.
    pub fn reply(&self) -> (r: Option<String>)
        ensures
            match r {
                Some(s) => self.notice() == Some(s@),
                None => self.notice() is None,
            },
    {
        match self {
            Admission::Created(_) => None,
            Admission::AlreadyExists => Some("A gallery for this channel already exists.".to_owned()),
            Admission::Failed(_) => Some("An error occurred while running the command.".to_owned()),
        }
    }
}

impl GalleryStore {
    /// Admits a channel under the name the caller fetched for it, at time `now`.
    ///
    /// A channel that already has a gallery gets `AlreadyExists` and the store
    /// is left as it was; otherwise the gallery is created as
    /// `create_gallery` does.
    pub fn handle_gallery_command(&mut self, channel_id: u64, channel_name: String, now: i64) -> (r: Admission)
        requires
            old(self).wf(),
        ensures
            final(self).wf(),
            gallery_of_channel(old(self)@.galleries, channel_id) is Some ==> r == Admission::AlreadyExists
                && final(self)@ == old(self)@,
            gallery_of_channel(old(self)@.galleries, channel_id) is None ==> final(self)@ == create_outcome(
                old(self)@,
                channel_id,
                channel_name,
                now,
            ).1 && match create_outcome(old(self)@, channel_id, channel_name, now).0 {
                Ok(g) => r == Admission::Created(g),
                Err(e) => r == Admission::Failed(admission_error_of(e)),
            },
    {
        let lookup: Result<Option<Gallery>, StoreError> = Ok(self.find_by_channel_id(channel_id));
        match admission_after_lookup(&lookup) {
            AdmissionStep::Done(a) => a,
            AdmissionStep::FetchChannel => admission_after_insert(self.create_gallery(channel_id, channel_name, now)),
        }
    }
}

} // verus!
