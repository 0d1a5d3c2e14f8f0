//! Rules about paths. What the file system says of a path is gathered by the caller and
//! handed over as `PathFacts`; the verdicts are decided here.
use vstd::prelude::*;
use crate::priority::Priority;
use crate::result::{ValidationResult, PartialValidationResult, ResultView, pass_view, fail_view, opt_text_ref};
use crate::basic::{PartialView, partial_ok, partial_error, message_or};
use crate::text::chars_of;
use crate::format::{CharClass, first_outside, find_outside};

verus! {

/// What the file system reports about a path.
#[derive(Debug, Clone, Copy, PartialEq, Eq, Structural)]
pub struct PathFacts {
    pub exists: bool,
    pub is_file: bool,
    pub is_dir: bool,
    /// The file opens for reading, or the directory can be listed.
    pub readable: bool,
    /// The file opens for writing, or a file can be created in the directory.
    pub writable: bool,
    /// Some execute permission is set.
    pub executable: bool,
}

/// A path being typed is flagged at its first NUL character.
pub open spec fn path_partial(input: Seq<char>) -> PartialView {
    if input.len() == 0 {
        partial_ok()
    } else {
        match first_outside(input, CharClass::PathChar, 0) {
            Some(k) => partial_error(k as usize),
            None => partial_ok(),
        }
    }
}

/// Partial check shared by the path rules.
pub fn path_partial_check(input: &str) -> (r: PartialValidationResult)
    ensures
        r@ == path_partial(input@),
{
    let cs = chars_of(input);
    if cs.len() == 0 {
        return PartialValidationResult::valid();
    }
    match find_outside(&cs, CharClass::PathChar) {
        Some(k) => PartialValidationResult::error_at(k),
        None => PartialValidationResult::valid(),
    }
}

/// Requires an existing regular file.
#[derive(Debug)]
pub struct FileExistsValidator {
    priority: Priority,
    custom_message: Option<String>,
}

impl FileExistsValidator {
    pub closed spec fn spec_priority(&self) -> Priority {
        self.priority
    }

    pub closed spec fn custom(&self) -> Option<Seq<char>> {
        opt_text_ref(&self.custom_message)
    }

    pub fn new() -> (r: Self)
        ensures
            r.spec_priority() == Priority::High,
            r.custom() is None,
    {
        FileExistsValidator { priority: Priority::High, custom_message: None }
    }

    pub fn with_priority(self, priority: Priority) -> (r: Self)
        ensures
            r.spec_priority() == priority,
            r.custom() == self.custom(),
    {
        FileExistsValidator { priority, ..self }
    }

    pub fn with_message(self, message: &str) -> (r: Self)
        ensures
            r.spec_priority() == self.spec_priority(),
            r.custom() == Some(message@),
    {
        FileExistsValidator { custom_message: Some(String::from_str(message)), ..self }
    }

    pub fn priority(&self) -> (r: Priority)
        ensures
            r == self.spec_priority(),
    {
        self.priority
    }

    pub fn name(&self) -> (r: &'static str)
        ensures
            r@ == "file_exists"@,
    {
        "file_exists"
    }

    fn fail(&self, default: &str) -> (r: ValidationResult)
        ensures
            r@ == fail_view("file_exists"@, self.spec_priority(), message_or(self.custom(), default@)),
    {
        match &self.custom_message {
            Some(m) => ValidationResult::failure("file_exists", self.priority, m.as_str()),
            None => ValidationResult::failure("file_exists", self.priority, default),
        }
    }
}

impl FileExistsValidator {
    pub open spec fn spec_validate_facts(&self, facts: PathFacts) -> ResultView {
        if facts.exists && facts.is_file {
            pass_view("file_exists"@, Priority::Medium)
        } else if !facts.exists {
            fail_view("file_exists"@, self.spec_priority(), message_or(self.custom(), "File does not exist"@))
        } else {
            fail_view("file_exists"@, self.spec_priority(), message_or(self.custom(), "Path exists but is not a file"@))
        }
    }

    pub fn validate_facts(&self, facts: PathFacts) -> (r: ValidationResult)
        ensures
            r@ == self.spec_validate_facts(facts),
    {
        if facts.exists && facts.is_file {
            ValidationResult::success("file_exists")
        } else if !facts.exists {
            self.fail("File does not exist")
        } else {
            self.fail("Path exists but is not a file")
        }
    }

    pub fn partial_validate(&self, input: &str, cursor_pos: usize) -> (r: PartialValidationResult)
        ensures
            r@ == path_partial(input@),
    {
        path_partial_check(input)
    }
}

/// Requires an existing directory.
#[derive(Debug)]
pub struct DirExistsValidator {
    priority: Priority,
    custom_message: Option<String>,
}

impl DirExistsValidator {
    pub closed spec fn spec_priority(&self) -> Priority {
        self.priority
    }

    pub closed spec fn custom(&self) -> Option<Seq<char>> {
        opt_text_ref(&self.custom_message)
    }

    pub fn new() -> (r: Self)
        ensures
            r.spec_priority() == Priority::High,
            r.custom() is None,
    {
        DirExistsValidator { priority: Priority::High, custom_message: None }
    }

    pub fn with_priority(self, priority: Priority) -> (r: Self)
        ensures
            r.spec_priority() == priority,
            r.custom() == self.custom(),
    {
        DirExistsValidator { priority, ..self }
    }

    pub fn with_message(self, message: &str) -> (r: Self)
        ensures
            r.spec_priority() == self.spec_priority(),
            r.custom() == Some(message@),
    {
        DirExistsValidator { custom_message: Some(String::from_str(message)), ..self }
    }

    pub fn priority(&self) -> (r: Priority)
        ensures
            r == self.spec_priority(),
    {
        self.priority
    }

    pub fn name(&self) -> (r: &'static str)
        ensures
            r@ == "dir_exists"@,
    {
        "dir_exists"
    }

    fn fail(&self, default: &str) -> (r: ValidationResult)
        ensures
            r@ == fail_view("dir_exists"@, self.spec_priority(), message_or(self.custom(), default@)),
    {
        match &self.custom_message {
            Some(m) => ValidationResult::failure("dir_exists", self.priority, m.as_str()),
            None => ValidationResult::failure("dir_exists", self.priority, default),
        }
    }
}

impl DirExistsValidator {
    pub open spec fn spec_validate_facts(&self, facts: PathFacts) -> ResultView {
        if facts.exists && facts.is_dir {
            pass_view("dir_exists"@, Priority::Medium)
        } else if !facts.exists {
            fail_view("dir_exists"@, self.spec_priority(), message_or(self.custom(), "Directory does not exist"@))
        } else {
            fail_view("dir_exists"@, self.spec_priority(), message_or(self.custom(), "Path exists but is not a directory"@))
        }
    }

    pub fn validate_facts(&self, facts: PathFacts) -> (r: ValidationResult)
        ensures
            r@ == self.spec_validate_facts(facts),
    {
        if facts.exists && facts.is_dir {
            ValidationResult::success("dir_exists")
        } else if !facts.exists {
            self.fail("Directory does not exist")
        } else {
            self.fail("Path exists but is not a directory")
        }
    }

    pub fn partial_validate(&self, input: &str, cursor_pos: usize) -> (r: PartialValidationResult)
        ensures
            r@ == path_partial(input@),
    {
        path_partial_check(input)
    }
}

/// Requires an existing path of any kind.
#[derive(Debug)]
pub struct PathExistsValidator {
    priority: Priority,
    custom_message: Option<String>,
}

impl PathExistsValidator {
    pub closed spec fn spec_priority(&self) -> Priority {
        self.priority
    }

    pub closed spec fn custom(&self) -> Option<Seq<char>> {
        opt_text_ref(&self.custom_message)
    }

    pub fn new() -> (r: Self)
        ensures
            r.spec_priority() == Priority::High,
            r.custom() is None,
    {
        PathExistsValidator { priority: Priority::High, custom_message: None }
    }

    pub fn with_priority(self, priority: Priority) -> (r: Self)
        ensures
            r.spec_priority() == priority,
            r.custom() == self.custom(),
    {
        PathExistsValidator { priority, ..self }
    }

    pub fn with_message(self, message: &str) -> (r: Self)
        ensures
            r.spec_priority() == self.spec_priority(),
            r.custom() == Some(message@),
    {
        PathExistsValidator { custom_message: Some(String::from_str(message)), ..self }
    }

    pub fn priority(&self) -> (r: Priority)
        ensures
            r == self.spec_priority(),
    {
        self.priority
    }

    pub fn name(&self) -> (r: &'static str)
        ensures
            r@ == "path_exists"@,
    {
        "path_exists"
    }

    fn fail(&self, default: &str) -> (r: ValidationResult)
        ensures
            r@ == fail_view("path_exists"@, self.spec_priority(), message_or(self.custom(), default@)),
    {
        match &self.custom_message {
            Some(m) => ValidationResult::failure("path_exists", self.priority, m.as_str()),
            None => ValidationResult::failure("path_exists", self.priority, default),
        }
    }
}

impl PathExistsValidator {
    pub open spec fn spec_validate_facts(&self, facts: PathFacts) -> ResultView {
        if facts.exists {
            pass_view("path_exists"@, Priority::Medium)
        } else {
            fail_view("path_exists"@, self.spec_priority(), message_or(self.custom(), "Path does not exist"@))
        }
    }

    pub fn validate_facts(&self, facts: PathFacts) -> (r: ValidationResult)
        ensures
            r@ == self.spec_validate_facts(facts),
    {
        if facts.exists {
            ValidationResult::success("path_exists")
        } else {
            self.fail("Path does not exist")
        }
    }

    pub fn partial_validate(&self, input: &str, cursor_pos: usize) -> (r: PartialValidationResult)
        ensures
            r@ == path_partial(input@),
    {
        path_partial_check(input)
    }
}

/// Requires a path that can be read.
#[derive(Debug)]
pub struct ReadableValidator {
    priority: Priority,
    custom_message: Option<String>,
}

impl ReadableValidator {
    pub closed spec fn spec_priority(&self) -> Priority {
        self.priority
    }

    pub closed spec fn custom(&self) -> Option<Seq<char>> {
        opt_text_ref(&self.custom_message)
    }

    pub fn new() -> (r: Self)
        ensures
            r.spec_priority() == Priority::Medium,
            r.custom() is None,
    {
        ReadableValidator { priority: Priority::Medium, custom_message: None }
    }

    pub fn with_priority(self, priority: Priority) -> (r: Self)
        ensures
            r.spec_priority() == priority,
            r.custom() == self.custom(),
    {
        ReadableValidator { priority, ..self }
    }

    pub fn with_message(self, message: &str) -> (r: Self)
        ensures
            r.spec_priority() == self.spec_priority(),
            r.custom() == Some(message@),
    {
        ReadableValidator { custom_message: Some(String::from_str(message)), ..self }
    }

    pub fn priority(&self) -> (r: Priority)
        ensures
            r == self.spec_priority(),
    {
        self.priority
    }

    pub fn name(&self) -> (r: &'static str)
        ensures
            r@ == "readable"@,
    {
        "readable"
    }

    fn fail(&self, default: &str) -> (r: ValidationResult)
        ensures
            r@ == fail_view("readable"@, self.spec_priority(), message_or(self.custom(), default@)),
    {
        match &self.custom_message {
            Some(m) => ValidationResult::failure("readable", self.priority, m.as_str()),
            None => ValidationResult::failure("readable", self.priority, default),
        }
    }
}

impl ReadableValidator {
    pub open spec fn spec_validate_facts(&self, facts: PathFacts) -> ResultView {
        if !facts.exists {
            fail_view("readable"@, self.spec_priority(), message_or(self.custom(), "Path does not exist"@))
        } else if (facts.is_file || facts.is_dir) && facts.readable {
            pass_view("readable"@, Priority::Medium)
        } else {
            fail_view("readable"@, self.spec_priority(), message_or(self.custom(), "Path is not readable (permission denied)"@))
        }
    }

    pub fn validate_facts(&self, facts: PathFacts) -> (r: ValidationResult)
        ensures
            r@ == self.spec_validate_facts(facts),
    {
        if !facts.exists {
            self.fail("Path does not exist")
        } else if (facts.is_file || facts.is_dir) && facts.readable {
            ValidationResult::success("readable")
        } else {
            self.fail("Path is not readable (permission denied)")
        }
    }

    pub fn partial_validate(&self, input: &str, cursor_pos: usize) -> (r: PartialValidationResult)
        ensures
            r@ == path_partial(input@),
    {
        path_partial_check(input)
    }
}

/// Requires a path that can be written.
#[derive(Debug)]
pub struct WritableValidator {
    priority: Priority,
    custom_message: Option<String>,
}

impl WritableValidator {
    pub closed spec fn spec_priority(&self) -> Priority {
        self.priority
    }

    pub closed spec fn custom(&self) -> Option<Seq<char>> {
        opt_text_ref(&self.custom_message)
    }

    pub fn new() -> (r: Self)
        ensures
            r.spec_priority() == Priority::Medium,
            r.custom() is None,
    {
        WritableValidator { priority: Priority::Medium, custom_message: None }
    }

    pub fn with_priority(self, priority: Priority) -> (r: Self)
        ensures
            r.spec_priority() == priority,
            r.custom() == self.custom(),
    {
        WritableValidator { priority, ..self }
    }

    pub fn with_message(self, message: &str) -> (r: Self)
        ensures
            r.spec_priority() == self.spec_priority(),
            r.custom() == Some(message@),
    {
        WritableValidator { custom_message: Some(String::from_str(message)), ..self }
    }

    pub fn priority(&self) -> (r: Priority)
        ensures
            r == self.spec_priority(),
    {
        self.priority
    }

    pub fn name(&self) -> (r: &'static str)
        ensures
            r@ == "writable"@,
    {
        "writable"
    }

    fn fail(&self, default: &str) -> (r: ValidationResult)
        ensures
            r@ == fail_view("writable"@, self.spec_priority(), message_or(self.custom(), default@)),
    {
        match &self.custom_message {
            Some(m) => ValidationResult::failure("writable", self.priority, m.as_str()),
            None => ValidationResult::failure("writable", self.priority, default),
        }
    }
}

impl WritableValidator {
    pub open spec fn spec_validate_facts(&self, facts: PathFacts) -> ResultView {
        if !facts.exists {
            fail_view("writable"@, self.spec_priority(), message_or(self.custom(), "Path does not exist"@))
        } else if (facts.is_file || facts.is_dir) && facts.writable {
            pass_view("writable"@, Priority::Medium)
        } else {
            fail_view("writable"@, self.spec_priority(), message_or(self.custom(), "Path is not writable (permission denied)"@))
        }
    }

    pub fn validate_facts(&self, facts: PathFacts) -> (r: ValidationResult)
        ensures
            r@ == self.spec_validate_facts(facts),
    {
        if !facts.exists {
            self.fail("Path does not exist")
        } else if (facts.is_file || facts.is_dir) && facts.writable {
            ValidationResult::success("writable")
        } else {
            self.fail("Path is not writable (permission denied)")
        }
    }

    pub fn partial_validate(&self, input: &str, cursor_pos: usize) -> (r: PartialValidationResult)
        ensures
            r@ == path_partial(input@),
    {
        path_partial_check(input)
    }
}

/// Requires an executable file.
#[derive(Debug)]
pub struct ExecutableValidator {
    priority: Priority,
    custom_message: Option<String>,
}

impl ExecutableValidator {
    pub closed spec fn spec_priority(&self) -> Priority {
        self.priority
    }

    pub closed spec fn custom(&self) -> Option<Seq<char>> {
        opt_text_ref(&self.custom_message)
    }

    pub fn new() -> (r: Self)
        ensures
            r.spec_priority() == Priority::Medium,
            r.custom() is None,
    {
        ExecutableValidator { priority: Priority::Medium, custom_message: None }
    }

    pub fn with_priority(self, priority: Priority) -> (r: Self)
        ensures
            r.spec_priority() == priority,
            r.custom() == self.custom(),
    {
        ExecutableValidator { priority, ..self }
    }

    pub fn with_message(self, message: &str) -> (r: Self)
        ensures
            r.spec_priority() == self.spec_priority(),
            r.custom() == Some(message@),
    {
        ExecutableValidator { custom_message: Some(String::from_str(message)), ..self }
    }

    pub fn priority(&self) -> (r: Priority)
        ensures
            r == self.spec_priority(),
    {
        self.priority
    }

    pub fn name(&self) -> (r: &'static str)
        ensures
            r@ == "executable"@,
    {
        "executable"
    }

    fn fail(&self, default: &str) -> (r: ValidationResult)
        ensures
            r@ == fail_view("executable"@, self.spec_priority(), message_or(self.custom(), default@)),
    {
        match &self.custom_message {
            Some(m) => ValidationResult::failure("executable", self.priority, m.as_str()),
            None => ValidationResult::failure("executable", self.priority, default),
        }
    }
}

impl ExecutableValidator {
    pub open spec fn spec_validate_facts(&self, facts: PathFacts) -> ResultView {
        if !facts.exists {
            fail_view("executable"@, self.spec_priority(), message_or(self.custom(), "Path does not exist"@))
        } else if !facts.is_file {
            fail_view("executable"@, self.spec_priority(), message_or(self.custom(), "Path is not a file"@))
        } else if facts.executable {
            pass_view("executable"@, Priority::Medium)
        } else {
            fail_view("executable"@, self.spec_priority(), message_or(self.custom(), "File is not executable"@))
        }
    }

    pub fn validate_facts(&self, facts: PathFacts) -> (r: ValidationResult)
        ensures
            r@ == self.spec_validate_facts(facts),
    {
        if !facts.exists {
            self.fail("Path does not exist")
        } else if !facts.is_file {
            self.fail("Path is not a file")
        } else if facts.executable {
            ValidationResult::success("executable")
        } else {
            self.fail("File is not executable")
        }
    }

    pub fn partial_validate(&self, input: &str, cursor_pos: usize) -> (r: PartialValidationResult)
        ensures
            r@ == path_partial(input@),
    {
        path_partial_check(input)
    }
}

} // verus!
