use std::path::PathBuf;
use vstd::prelude::*;

verus! {

/// std's PathBuf, carried through the argument types as an opaque value.
#[verifier::external_type_specification]
#[verifier::external_body]
pub struct ExPathBuf(PathBuf);

/// The command line: one of the four commands.
#[derive(Debug)]
pub struct Cli {
    cmd: Commands,
}

/// What the tool is asked to do.
#[derive(Debug)]
pub enum Commands {
    /// Hides a message in a PNG file and saves the result.
    Encode(EncodeArgs),
    /// Prints the message hidden in a chunk of a PNG file.
    Decode(DecodeArgs),
    /// Removes a chunk from a PNG file and saves the result.
    Remove(RemoveArgs),
    /// Prints the chunks of a PNG file.
    Print(PrintArgs),
}

/// The arguments of `Encode`.
#[derive(Debug)]
pub struct EncodeArgs {
    png: PathBuf,
    chunk_type: String,
    secret_message: String,
}

/// The arguments of `Decode`.
#[derive(Debug)]
pub struct DecodeArgs {
    png: PathBuf,
    chunk_type: String,
}

/// The arguments of `Remove`.
#[derive(Debug)]
pub struct RemoveArgs {
    png: PathBuf,
    chunk_type: String,
}

/// The arguments of `Print`.
#[derive(Debug)]
pub struct PrintArgs {
    png: PathBuf,
}

impl Cli {
    pub closed spec fn spec_cmd(&self) -> Commands {
        self.cmd
    }

    pub fn new(cmd: Commands) -> (r: Cli)
        ensures
            r.spec_cmd() == cmd,
    {
        Cli { cmd }
    }

    pub fn cmd(self) -> (r: Commands)
        ensures
            r == self.spec_cmd(),
    {
        self.cmd
    }
}

impl EncodeArgs {
    pub closed spec fn spec_png(&self) -> PathBuf {
        self.png
    }

    pub closed spec fn spec_chunk_type(&self) -> Seq<char> {
        self.chunk_type@
    }

    pub closed spec fn spec_secret_message(&self) -> Seq<char> {
        self.secret_message@
    }

    pub fn new(png: PathBuf, chunk_type: String, secret_message: String) -> (r: EncodeArgs)
        ensures
            r.spec_png() == png,
            r.spec_chunk_type() == chunk_type@,
            r.spec_secret_message() == secret_message@,
    {
        EncodeArgs { png, chunk_type, secret_message }
    }

    pub fn png(&self) -> (r: &PathBuf)
        ensures
            *r == self.spec_png(),
    {
        &self.png
    }

    pub fn chunk_type(&self) -> (r: &str)
        ensures
            r@ == self.spec_chunk_type(),
    {
        self.chunk_type.as_str()
    }

    pub fn secret_message(&self) -> (r: &str)
        ensures
            r@ == self.spec_secret_message(),
    {
        self.secret_message.as_str()
    }
}

impl DecodeArgs {
    pub closed spec fn spec_png(&self) -> PathBuf {
        self.png
    }

    pub closed spec fn spec_chunk_type(&self) -> Seq<char> {
        self.chunk_type@
    }

    pub fn new(png: PathBuf, chunk_type: String) -> (r: DecodeArgs)
        ensures
            r.spec_png() == png,
            r.spec_chunk_type() == chunk_type@,
    {
        DecodeArgs { png, chunk_type }
    }

    pub fn png(&self) -> (r: &PathBuf)
        ensures
            *r == self.spec_png(),
    {
        &self.png
    }

    pub fn chunk_type(&self) -> (r: &str)
        ensures
            r@ == self.spec_chunk_type(),
    {
        self.chunk_type.as_str()
    }
}

impl RemoveArgs {
    pub closed spec fn spec_png(&self) -> PathBuf {
        self.png
    }

    pub closed spec fn spec_chunk_type(&self) -> Seq<char> {
        self.chunk_type@
    }

    pub fn new(png: PathBuf, chunk_type: String) -> (r: RemoveArgs)
        ensures
            r.spec_png() == png,
            r.spec_chunk_type() == chunk_type@,
    {
        RemoveArgs { png, chunk_type }
    }

    pub fn png(&self) -> (r: &PathBuf)
        ensures
            *r == self.spec_png(),
    {
        &self.png
    }

    pub fn chunk_type(&self) -> (r: &str)
        ensures
            r@ == self.spec_chunk_type(),
    {
        self.chunk_type.as_str()
    }
}

impl PrintArgs {
    pub closed spec fn spec_png(&self) -> PathBuf {
        self.png
    }

    pub fn new(png: PathBuf) -> (r: PrintArgs)
        ensures
            r.spec_png() == png,
    {
        PrintArgs { png }
    }

    pub fn png(&self) -> (r: &PathBuf)
        ensures
            *r == self.spec_png(),
    {
        &self.png
    }
}

} // verus!
