//! Status-line texts: every message the engine reports, with its exact
//! content pinned down.

use vstd::prelude::*;

verus! {

/// "the key '<k>' already exists"
pub open spec fn dup_key_msg(k: Seq<char>) -> Seq<char> {
    "the key '"@ + k + "' already exists"@
}

/// Render [`dup_key_msg`].
pub fn dup_key_text(k: &str) -> (r: String)
    ensures
        r@ == dup_key_msg(k@),
{
    let mut s = String::new();
    s.append("the key '");
    s.append(k);
    s.append("' already exists");
    s
}

/// "received '<answer>', the key was not deleted"
pub open spec fn not_deleted_msg(answer: Seq<char>) -> Seq<char> {
    "received '"@ + answer + "', the key was not deleted"@
}

/// Render [`not_deleted_msg`].
pub fn not_deleted_text(answer: &str) -> (r: String)
    ensures
        r@ == not_deleted_msg(answer@),
{
    let mut s = String::new();
    s.append("received '");
    s.append(answer);
    s.append("', the key was not deleted");
    s
}

/// "deleted the key '<path>'"
pub open spec fn deleted_msg(path: Seq<char>) -> Seq<char> {
    "deleted the key '"@ + path + "'"@
}

/// Render [`deleted_msg`].
pub fn deleted_text(path: &str) -> (r: String)
    ensures
        r@ == deleted_msg(path@),
{
    let mut s = String::new();
    s.append("deleted the key '");
    s.append(path);
    s.append("'");
    s
}

/// "added new key to the vault <path> -> <secret>"
pub open spec fn added_msg(path: Seq<char>, secret: Seq<char>) -> Seq<char> {
    "added new key to the vault "@ + path + " -> "@ + secret
}

/// Render [`added_msg`].
pub fn added_text(path: &str, secret: &str) -> (r: String)
    ensures
        r@ == added_msg(path@, secret@),
{
    let mut s = String::new();
    s.append("added new key to the vault ");
    s.append(path);
    s.append(" -> ");
    s.append(secret);
    s
}

/// "updated the secret of <path> -> <secret>"
pub open spec fn updated_msg(path: Seq<char>, secret: Seq<char>) -> Seq<char> {
    "updated the secret of "@ + path + " -> "@ + secret
}

/// Render [`updated_msg`].
pub fn updated_text(path: &str, secret: &str) -> (r: String)
    ensures
        r@ == updated_msg(path@, secret@),
{
    let mut s = String::new();
    s.append("updated the secret of ");
    s.append(path);
    s.append(" -> ");
    s.append(secret);
    s
}

/// "Are you sure you want to delete the key '<name>'? ..."
pub open spec fn confirm_delete_msg(name: Seq<char>) -> Seq<char> {
    "Are you sure you want to delete the key '"@ + name
        + "'? (only 'yes' will be accepted): "@
}

/// Render [`confirm_delete_msg`].
pub fn confirm_delete_text(name: &str) -> (r: String)
    ensures
        r@ == confirm_delete_msg(name@),
{
    let mut s = String::new();
    s.append("Are you sure you want to delete the key '");
    s.append(name);
    s.append("'? (only 'yes' will be accepted): ");
    s
}

/// Refusal to submit an empty key name.
pub open spec fn empty_key_msg() -> Seq<char> {
    "the key must not be empty"@
}

/// Render [`empty_key_msg`].
pub fn empty_key_text() -> (r: String)
    ensures
        r@ == empty_key_msg(),
{
    let mut s = String::new();
    s.append("the key must not be empty");
    s
}

/// Refusal to submit a key name ending with the separator.
pub open spec fn dir_key_msg() -> Seq<char> {
    "to create a directory, please specify the key name, e.g. directory/keyName"@
}

/// Render [`dir_key_msg`].
pub fn dir_key_text() -> (r: String)
    ensures
        r@ == dir_key_msg(),
{
    let mut s = String::new();
    s.append("to create a directory, please specify the key name, e.g. directory/keyName");
    s
}

/// Refusal to update the value of a directory.
pub open spec fn cannot_update_dir_msg() -> Seq<char> {
    "cannot update a directory, please select a key"@
}

/// Render [`cannot_update_dir_msg`].
pub fn cannot_update_dir_text() -> (r: String)
    ensures
        r@ == cannot_update_dir_msg(),
{
    let mut s = String::new();
    s.append("cannot update a directory, please select a key");
    s
}

/// Refusal to rename a directory.
pub open spec fn cannot_rename_dir_msg() -> Seq<char> {
    "cannot rename a directory, please select a key"@
}

/// Render [`cannot_rename_dir_msg`].
pub fn cannot_rename_dir_text() -> (r: String)
    ensures
        r@ == cannot_rename_dir_msg(),
{
    let mut s = String::new();
    s.append("cannot rename a directory, please select a key");
    s
}

/// Refusal to delete a directory.
pub open spec fn cannot_delete_dir_msg() -> Seq<char> {
    "cannot delete a directory, please select a key"@
}

/// Render [`cannot_delete_dir_msg`].
pub fn cannot_delete_dir_text() -> (r: String)
    ensures
        r@ == cannot_delete_dir_msg(),
{
    let mut s = String::new();
    s.append("cannot delete a directory, please select a key");
    s
}

/// The duplicate-key refusal can never read like the not-a-key refusal,
/// whatever key name it carries.
pub proof fn lemma_dup_key_msg_distinct(k: Seq<char>)
    ensures
        dup_key_msg(k) != cannot_rename_dir_msg(),
{
    reveal_strlit("the key '");
    reveal_strlit("cannot rename a directory, please select a key");
    assert(dup_key_msg(k)[0] == 't');
    assert(cannot_rename_dir_msg()[0] == 'c');
}

/// Confirmation after a successful rename.
pub open spec fn renamed_msg() -> Seq<char> {
    "successfully renamed the key"@
}

/// Render [`renamed_msg`].
pub fn renamed_text() -> (r: String)
    ensures
        r@ == renamed_msg(),
{
    let mut s = String::new();
    s.append("successfully renamed the key");
    s
}

/// Confirmation after copying the selected path.
pub open spec fn copied_path_msg() -> Seq<char> {
    "path copied to clipboard"@
}

/// Render [`copied_path_msg`].
pub fn copied_path_text() -> (r: String)
    ensures
        r@ == copied_path_msg(),
{
    let mut s = String::new();
    s.append("path copied to clipboard");
    s
}

/// Confirmation after copying the selected secret.
pub open spec fn copied_secret_msg() -> Seq<char> {
    "secret copied to clipboard"@
}

/// Render [`copied_secret_msg`].
pub fn copied_secret_text() -> (r: String)
    ensures
        r@ == copied_secret_msg(),
{
    let mut s = String::new();
    s.append("secret copied to clipboard");
    s
}

/// The controls summary shown by the help action and at startup.
pub open spec fn controls_msg() -> Seq<char> {
    "Navigate with arrows or HJKL    copy [P]ath    copy [S]ecret    [A]dd secret    [R]ename key    [U]pdate secret    [D]elete secret    [Q]uit    [C]lear cache    [O]pen help"@
}

/// Render [`controls_msg`].
pub fn controls_text() -> (r: String)
    ensures
        r@ == controls_msg(),
{
    let mut s = String::new();
    s.append(
        "Navigate with arrows or HJKL    copy [P]ath    copy [S]ecret    [A]dd secret    [R]ename key    [U]pdate secret    [D]elete secret    [Q]uit    [C]lear cache    [O]pen help",
    );
    s
}

} // verus!
