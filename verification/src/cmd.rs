//! Command lines for the external collaborators: the extraction backend
//! and the conversion and mail-relay utilities. Only the command text is
//! built here, with its exact content stated; running a process is the
//! caller's business.

use vstd::prelude::*;

use crate::config::PultConf;

verus! {

/// Which extraction backend the external readability process uses.
#[derive(Clone, Copy, Debug, PartialEq, Eq, Structural)]
pub enum ReadabiliPyParser {
    /// The Python-ecosystem parser.
    Python,
    /// The Mozilla readability algorithm.
    Mozilla,
}

/// The flag that selects the parser on the command line.
pub open spec fn parser_flag(p: ReadabiliPyParser) -> Seq<char> {
    match p {
        ReadabiliPyParser::Python => "-p"@,
        ReadabiliPyParser::Mozilla => ""@,
    }
}

/// The full extraction command: the backend flag, the HTML input path
/// and the artifact output path.
pub open spec fn readabilipy_command(
    p: ReadabiliPyParser,
    html_fpath: Seq<char>,
    json_fpath: Seq<char>,
) -> Seq<char> {
    "readabilipy "@ + parser_flag(p) + " -i "@ + html_fpath + " -o "@ + json_fpath
}

/// The external readability process, with its backend chosen once at
/// construction.
pub struct ReadabiliPyCmd {
    /// The chosen extraction backend.
    pub parser: ReadabiliPyParser,
}

impl ReadabiliPyCmd {
    /// Select the extraction backend.
    pub fn new(parser: ReadabiliPyParser) -> (r: Self)
        ensures
            r.parser == parser,
    {
        Self { parser }
    }

    /// The command line that turns the fetched HTML file into the
    /// artifact file.
    pub fn command_string(&self, html_fpath: &str, json_fpath: &str) -> (r: String)
        ensures
            r@ == readabilipy_command(self.parser, html_fpath@, json_fpath@),
    {
        let mut out = String::from_str("readabilipy ");
        match self.parser {
            ReadabiliPyParser::Python => out.append("-p"),
            ReadabiliPyParser::Mozilla => out.append(""),
        }
        out.append(" -i ");
        out.append(html_fpath);
        out.append(" -o ");
        out.append(json_fpath);
        out
    }
}

/// The conversion command: turn `file` into the format named by its
/// extension.
pub open spec fn convert_command(file: Seq<char>, to_ext: Seq<char>) -> Seq<char> {
    "ebook-convert \""@ + file + "\" ."@ + to_ext
}

/// The relay command: mail the converted file, named by its stem, with
/// the account settings of the configuration.
pub open spec fn send_command(filename: Seq<char>, cfg: &PultConf) -> Seq<char> {
    "calibre-smtp -a \""@ + filename + ".mobi\" -s \""@ + filename + "\" -r \""@ + cfg.smtp@
        + "\" --port "@ + cfg.port@ + " -u \""@ + cfg.username@ + "\" -p \""@ + cfg.password@
        + "\" \""@ + cfg.from_mail@ + "\" \""@ + cfg.to_mail@ + "\" \"\""@
}

/// The external conversion and mail-relay utilities.
pub struct CalibreCmd {}

impl CalibreCmd {
    /// The command line that converts `file` to the target format.
    pub fn convert_string(file: &str, to_ext: &str) -> (r: String)
        ensures
            r@ == convert_command(file@, to_ext@),
    {
        let mut out = String::from_str("ebook-convert \"");
        out.append(file);
        out.append("\" .");
        out.append(to_ext);
        out
    }

    /// The command line that mails the file named by `filename`.
    pub fn send_string(filename: &str, cfg: &PultConf) -> (r: String)
        ensures
            r@ == send_command(filename@, cfg),
    {
        let mut out = String::from_str("calibre-smtp -a \"");
        out.append(filename);
        out.append(".mobi\" -s \"");
        out.append(filename);
        out.append("\" -r \"");
        out.append(cfg.smtp.as_str());
        out.append("\" --port ");
        out.append(cfg.port.as_str());
        out.append(" -u \"");
        out.append(cfg.username.as_str());
        out.append("\" -p \"");
        out.append(cfg.password.as_str());
        out.append("\" \"");
        out.append(cfg.from_mail.as_str());
        out.append("\" \"");
        out.append(cfg.to_mail.as_str());
        out.append("\" \"\"");
        out
    }
}

} // verus!
