//! Folder rules: names, the internal root folder, and the verdicts of folder requests.

use vstd::prelude::*;

use crate::errors::ApiError;

verus! {

/// A folder as the API lists it.
#[derive(Clone, Debug, PartialEq, Eq)]
pub struct FolderOut {
    pub id: i64,
    pub name: String,
}

/// The folder a request targets: the internal root folder, or an explicit folder id.
#[derive(Clone, Copy, Debug, PartialEq, Eq)]
pub enum FolderRef {
    Root,
    Id(i64),
}

/// `folderId: null` and `folderId: 0` both mean the root folder.
pub open spec fn folder_ref_of(folder_id: Option<i64>) -> FolderRef {
    match folder_id {
        None => FolderRef::Root,
        Some(id) => if id == 0 {
            FolderRef::Root
        } else {
            FolderRef::Id(id)
        },
    }
}

/// Reads a requested folder id, mapping `null` and `0` to the root folder.
pub fn folder_ref(folder_id: Option<i64>) -> (res: FolderRef)
    ensures
        res == folder_ref_of(folder_id),
{
    match folder_id {
        None => FolderRef::Root,
        Some(id) => if id == 0 {
            FolderRef::Root
        } else {
            FolderRef::Id(id)
        },
    }
}

/// An explicitly requested folder must exist; otherwise `422 Folder with ID .. does not exist`.
pub fn explicit_folder_verdict(requested_id: i64, exists: bool) -> (res: Result<i64, ApiError>)
    ensures
        exists ==> res == Ok::<i64, ApiError>(requested_id),
        !exists ==> res == Err::<i64, ApiError>(ApiError::FolderNotFoundWithId(requested_id)),
{
    if exists {
        Ok(requested_id)
    } else {
        Err(ApiError::FolderNotFoundWithId(requested_id))
    }
}

/// A folder name is valid when it is not empty.
pub fn validate_folder_name(name: &str) -> (res: Result<(), ApiError>)
    ensures
        name@.len() == 0 ==> res == Err::<(), ApiError>(ApiError::FolderNameInvalid),
        name@.len() > 0 ==> res is Ok,
{
    if name.unicode_len() == 0 {
        Err(ApiError::FolderNameInvalid)
    } else {
        Ok(())
    }
}

/// Creating a folder: `422` for an empty name, `409` when a folder of that name exists.
pub fn create_folder_verdict(name: &str, existing_id: Option<i64>) -> (res: Result<(), ApiError>)
    ensures
        name@.len() == 0 ==> res == Err::<(), ApiError>(ApiError::FolderNameInvalid),
        name@.len() > 0 && existing_id is Some ==> res == Err::<(), ApiError>(
            ApiError::FolderAlreadyExists,
        ),
        name@.len() > 0 && existing_id is None ==> res is Ok,
{
    validate_folder_name(name)?;
    if existing_id.is_some() {
        return Err(ApiError::FolderAlreadyExists);
    }
    Ok(())
}

/// Renaming a folder: `422` for an empty name, then `404` for a missing folder, then `409` when
/// another folder already has the name.
pub fn rename_folder_verdict(name: &str, folder_exists: bool, duplicate_exists: bool) -> (res:
    Result<(), ApiError>)
    ensures
        name@.len() == 0 ==> res == Err::<(), ApiError>(ApiError::FolderNameInvalid),
        name@.len() > 0 && !folder_exists ==> res == Err::<(), ApiError>(ApiError::FolderNotFound),
        name@.len() > 0 && folder_exists && duplicate_exists ==> res == Err::<(), ApiError>(
            ApiError::FolderAlreadyExists,
        ),
        name@.len() > 0 && folder_exists && !duplicate_exists ==> res is Ok,
{
    validate_folder_name(name)?;
    if !folder_exists {
        return Err(ApiError::FolderNotFound);
    }
    if duplicate_exists {
        return Err(ApiError::FolderAlreadyExists);
    }
    Ok(())
}

/// Deleting a folder or marking its items read needs the folder: else `404 Folder not found`.
pub fn folder_exists_verdict(exists: bool) -> (res: Result<(), ApiError>)
    ensures
        exists ==> res is Ok,
        !exists ==> res == Err::<(), ApiError>(ApiError::FolderNotFound),
{
    if exists {
        Ok(())
    } else {
        Err(ApiError::FolderNotFound)
    }
}

/// `folderId: null` and `folderId: 0` name the same folder, the root, and no other id does.
pub proof fn law_null_and_zero_folder_ids_mean_root(id: i64)
    ensures
        folder_ref_of(None) == FolderRef::Root,
        folder_ref_of(Some(0)) == FolderRef::Root,
        id != 0 ==> folder_ref_of(Some(id)) == FolderRef::Id(id),
{
}

} // verus!
