//! The encoding of the console.
use vstd::prelude::*;
use vstd::string::*;

use crate::constants::OsPlatform;
use crate::{number, text};

verus! {

/// The code page of UTF-8.
pub const UTF8_CODE_PAGE: &'static str = "65001";

/// What is traced of setting the encoding.
#[derive(Debug)]
pub struct EncodingReport {
    /// Whether the message is a warning.
    pub warning: bool,
    pub message: String,
}

/// Sets the encoding of the console.
pub struct EncodingUtil;

impl EncodingUtil {
    /// The program to run and its argument. Only Windows needs one, and only where the program
    /// is found.
    pub fn set_encoding(platform: OsPlatform, chcp_path: &Option<String>) -> (r: Option<
        (String, String),
    >)
        ensures
            match r {
                Some((program, argument)) => {
                    &&& platform == OsPlatform::Windows
                    &&& text::view_option(*chcp_path) == Some(program@)
                    &&& argument@ == UTF8_CODE_PAGE@
                },
                None => platform != OsPlatform::Windows || *chcp_path is None,
            },
    {
        match (platform, chcp_path) {
            (OsPlatform::Windows, Some(path)) => Some((path.clone(), UTF8_CODE_PAGE.to_owned())),
            _ => None,
        }
    }

    /// What is traced, given the exit code of the program or why it did not run.
    pub fn report(outcome: &Result<i32, String>) -> (r: EncodingReport)
        ensures
            r.warning == (*outcome != Ok::<i32, String>(0)),
            r.message@ == match *outcome {
                Ok(code) => if code == 0 {
                    "Successfully returned to code page 65001 (UTF8)"@
                } else {
                    "'chcp 65001' failed with exit code "@ + number::signed_decimal(code as int)
                },
                Err(e) => "'chcp 65001' failed with exception: "@ + e@,
            },
    {
        match outcome {
            Ok(code) => if *code == 0 {
                EncodingReport {
                    warning: false,
                    message: "Successfully returned to code page 65001 (UTF8)".to_owned(),
                }
            } else {
                let mut s = "'chcp 65001' failed with exit code ".to_owned();
                s.append(number::i64_text(*code as i64).as_str());
                EncodingReport { warning: true, message: s }
            },
            Err(e) => {
                let mut s = "'chcp 65001' failed with exception: ".to_owned();
                s.append(e.as_str());
                EncodingReport { warning: true, message: s }
            },
        }
    }
}

} // verus!
