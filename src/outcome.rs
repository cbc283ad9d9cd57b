use vstd::prelude::*;

verus! {

/// The text that `String::from_utf8_lossy` makes of `bytes`: valid UTF-8
/// decoded, each invalid sequence replaced by U+FFFD.
pub uninterp spec fn lossy_text(bytes: Seq<u8>) -> Seq<char>;

/// Relies on `String::from_utf8_lossy`: its text depends on the bytes alone.
#[verifier::external_body]
fn utf8_lossy(bytes: &Vec<u8>) -> (r: String)
    ensures
        r@ == lossy_text(bytes@),
{
    String::from_utf8_lossy(bytes).into_owned()
}

/// The description of a failed unit: its exit status, then its error output.
pub open spec fn failure_text(status: Seq<char>, stderr_text: Seq<char>) -> Seq<char> {
    "exit "@ + status + ": "@ + stderr_text
}

/// Builds the description of a failed unit from the rendering of its exit
/// status and its decoded error output.
pub fn failure_message(status: &str, stderr_text: &str) -> (m: String)
    ensures
        m@ == failure_text(status@, stderr_text@),
{
    let mut m = String::from_str("exit ");
    m.append(status);
    m.append(": ");
    m.append(stderr_text);
    proof {
        reveal_strlit("exit ");
        reveal_strlit(": ");
    }
    m
}

/// What a finished unit reports: on success its standard output followed by
/// its error output, decoded; on failure the exit status and the decoded
/// error output.
pub fn unit_outcome(success: bool, status: &str, stdout: Vec<u8>, stderr: Vec<u8>) -> (r: Result<String, String>)
    ensures
        success ==> r is Ok && r->Ok_0@ == lossy_text(stdout@ + stderr@),
        !success ==> r is Err && r->Err_0@ == failure_text(status@, lossy_text(stderr@)),
{
    if success {
        let mut combined = stdout;
        let mut rest = stderr;
        combined.append(&mut rest);
        Ok(utf8_lossy(&combined))
    } else {
        let text = utf8_lossy(&stderr);
        Err(failure_message(status, text.as_str()))
    }
}

} // verus!
