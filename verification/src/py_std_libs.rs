//! The modules of Python's standard library that are left out of the graph.

use vstd::prelude::*;
use crate::text::{chars_of, same};

verus! {

/// Whether `name` is one of the listed standard-library modules.
pub open spec fn is_std_module(name: Seq<char>) -> bool {
    {
        ||| name == "__future__"@
        ||| name == "abc"@
        ||| name == "argparse"@
        ||| name == "array"@
        ||| name == "ast"@
        ||| name == "asyncio"@
        ||| name == "atexit"@
        ||| name == "base64"@
        ||| name == "bisect"@
        ||| name == "builtins"@
        ||| name == "bz2"@
        ||| name == "calendar"@
        ||| name == "cmath"@
        ||| name == "codecs"@
        ||| name == "collections"@
        ||| name == "colorsys"@
        ||| name == "concurrent"@
        ||| name == "configparser"@
        ||| name == "contextlib"@
        ||| name == "copy"@
        ||| name == "copyreg"@
        ||| name == "csv"@
        ||| name == "ctypes"@
        ||| name == "dataclasses"@
        ||| name == "datetime"@
        ||| name == "decimal"@
        ||| name == "difflib"@
        ||| name == "dis"@
        ||| name == "email"@
        ||| name == "enum"@
        ||| name == "errno"@
        ||| name == "faulthandler"@
        ||| name == "filecmp"@
        ||| name == "fileinput"@
        ||| name == "fnmatch"@
        ||| name == "fractions"@
        ||| name == "ftplib"@
        ||| name == "functools"@
        ||| name == "gc"@
        ||| name == "getopt"@
        ||| name == "getpass"@
        ||| name == "gettext"@
        ||| name == "glob"@
        ||| name == "gzip"@
        ||| name == "hashlib"@
        ||| name == "heapq"@
        ||| name == "hmac"@
        ||| name == "html"@
        ||| name == "http"@
        ||| name == "imaplib"@
        ||| name == "importlib"@
        ||| name == "inspect"@
        ||| name == "io"@
        ||| name == "ipaddress"@
        ||| name == "itertools"@
        ||| name == "json"@
        ||| name == "keyword"@
        ||| name == "linecache"@
        ||| name == "locale"@
        ||| name == "logging"@
        ||| name == "lzma"@
        ||| name == "mailbox"@
        ||| name == "math"@
        ||| name == "mimetypes"@
        ||| name == "multiprocessing"@
        ||| name == "netrc"@
        ||| name == "numbers"@
        ||| name == "operator"@
        ||| name == "os"@
        ||| name == "pathlib"@
        ||| name == "pickle"@
        ||| name == "pkgutil"@
        ||| name == "platform"@
        ||| name == "plistlib"@
        ||| name == "poplib"@
        ||| name == "pprint"@
        ||| name == "profile"@
        ||| name == "queue"@
        ||| name == "quopri"@
        ||| name == "random"@
        ||| name == "re"@
        ||| name == "reprlib"@
        ||| name == "sched"@
        ||| name == "secrets"@
        ||| name == "select"@
        ||| name == "selectors"@
        ||| name == "shelve"@
        ||| name == "shlex"@
        ||| name == "shutil"@
        ||| name == "signal"@
        ||| name == "site"@
        ||| name == "smtplib"@
        ||| name == "socket"@
        ||| name == "socketserver"@
        ||| name == "sqlite3"@
        ||| name == "ssl"@
        ||| name == "stat"@
        ||| name == "statistics"@
        ||| name == "string"@
        ||| name == "struct"@
        ||| name == "subprocess"@
        ||| name == "sys"@
        ||| name == "sysconfig"@
        ||| name == "tarfile"@
        ||| name == "tempfile"@
        ||| name == "textwrap"@
        ||| name == "threading"@
        ||| name == "time"@
        ||| name == "timeit"@
        ||| name == "tkinter"@
        ||| name == "token"@
        ||| name == "tokenize"@
        ||| name == "trace"@
        ||| name == "traceback"@
        ||| name == "tracemalloc"@
        ||| name == "types"@
        ||| name == "typing"@
        ||| name == "unicodedata"@
        ||| name == "unittest"@
        ||| name == "urllib"@
        ||| name == "uuid"@
        ||| name == "venv"@
        ||| name == "warnings"@
        ||| name == "wave"@
        ||| name == "weakref"@
        ||| name == "webbrowser"@
        ||| name == "xml"@
        ||| name == "zipfile"@
        ||| name == "zipimport"@
        ||| name == "zlib"@
    }
}

/// Looks `name` up in the list of standard-library modules.
pub fn is_std(name: &Vec<char>) -> (found: bool)
    ensures
        found == is_std_module(name@),
{
    same(name, &chars_of("__future__"))
        || same(name, &chars_of("abc"))
        || same(name, &chars_of("argparse"))
        || same(name, &chars_of("array"))
        || same(name, &chars_of("ast"))
        || same(name, &chars_of("asyncio"))
        || same(name, &chars_of("atexit"))
        || same(name, &chars_of("base64"))
        || same(name, &chars_of("bisect"))
        || same(name, &chars_of("builtins"))
        || same(name, &chars_of("bz2"))
        || same(name, &chars_of("calendar"))
        || same(name, &chars_of("cmath"))
        || same(name, &chars_of("codecs"))
        || same(name, &chars_of("collections"))
        || same(name, &chars_of("colorsys"))
        || same(name, &chars_of("concurrent"))
        || same(name, &chars_of("configparser"))
        || same(name, &chars_of("contextlib"))
        || same(name, &chars_of("copy"))
        || same(name, &chars_of("copyreg"))
        || same(name, &chars_of("csv"))
        || same(name, &chars_of("ctypes"))
        || same(name, &chars_of("dataclasses"))
        || same(name, &chars_of("datetime"))
        || same(name, &chars_of("decimal"))
        || same(name, &chars_of("difflib"))
        || same(name, &chars_of("dis"))
        || same(name, &chars_of("email"))
        || same(name, &chars_of("enum"))
        || same(name, &chars_of("errno"))
        || same(name, &chars_of("faulthandler"))
        || same(name, &chars_of("filecmp"))
        || same(name, &chars_of("fileinput"))
        || same(name, &chars_of("fnmatch"))
        || same(name, &chars_of("fractions"))
        || same(name, &chars_of("ftplib"))
        || same(name, &chars_of("functools"))
        || same(name, &chars_of("gc"))
        || same(name, &chars_of("getopt"))
        || same(name, &chars_of("getpass"))
        || same(name, &chars_of("gettext"))
        || same(name, &chars_of("glob"))
        || same(name, &chars_of("gzip"))
        || same(name, &chars_of("hashlib"))
        || same(name, &chars_of("heapq"))
        || same(name, &chars_of("hmac"))
        || same(name, &chars_of("html"))
        || same(name, &chars_of("http"))
        || same(name, &chars_of("imaplib"))
        || same(name, &chars_of("importlib"))
        || same(name, &chars_of("inspect"))
        || same(name, &chars_of("io"))
        || same(name, &chars_of("ipaddress"))
        || same(name, &chars_of("itertools"))
        || same(name, &chars_of("json"))
        || same(name, &chars_of("keyword"))
        || same(name, &chars_of("linecache"))
        || same(name, &chars_of("locale"))
        || same(name, &chars_of("logging"))
        || same(name, &chars_of("lzma"))
        || same(name, &chars_of("mailbox"))
        || same(name, &chars_of("math"))
        || same(name, &chars_of("mimetypes"))
        || same(name, &chars_of("multiprocessing"))
        || same(name, &chars_of("netrc"))
        || same(name, &chars_of("numbers"))
        || same(name, &chars_of("operator"))
        || same(name, &chars_of("os"))
        || same(name, &chars_of("pathlib"))
        || same(name, &chars_of("pickle"))
        || same(name, &chars_of("pkgutil"))
        || same(name, &chars_of("platform"))
        || same(name, &chars_of("plistlib"))
        || same(name, &chars_of("poplib"))
        || same(name, &chars_of("pprint"))
        || same(name, &chars_of("profile"))
        || same(name, &chars_of("queue"))
        || same(name, &chars_of("quopri"))
        || same(name, &chars_of("random"))
        || same(name, &chars_of("re"))
        || same(name, &chars_of("reprlib"))
        || same(name, &chars_of("sched"))
        || same(name, &chars_of("secrets"))
        || same(name, &chars_of("select"))
        || same(name, &chars_of("selectors"))
        || same(name, &chars_of("shelve"))
        || same(name, &chars_of("shlex"))
        || same(name, &chars_of("shutil"))
        || same(name, &chars_of("signal"))
        || same(name, &chars_of("site"))
        || same(name, &chars_of("smtplib"))
        || same(name, &chars_of("socket"))
        || same(name, &chars_of("socketserver"))
        || same(name, &chars_of("sqlite3"))
        || same(name, &chars_of("ssl"))
        || same(name, &chars_of("stat"))
        || same(name, &chars_of("statistics"))
        || same(name, &chars_of("string"))
        || same(name, &chars_of("struct"))
        || same(name, &chars_of("subprocess"))
        || same(name, &chars_of("sys"))
        || same(name, &chars_of("sysconfig"))
        || same(name, &chars_of("tarfile"))
        || same(name, &chars_of("tempfile"))
        || same(name, &chars_of("textwrap"))
        || same(name, &chars_of("threading"))
        || same(name, &chars_of("time"))
        || same(name, &chars_of("timeit"))
        || same(name, &chars_of("tkinter"))
        || same(name, &chars_of("token"))
        || same(name, &chars_of("tokenize"))
        || same(name, &chars_of("trace"))
        || same(name, &chars_of("traceback"))
        || same(name, &chars_of("tracemalloc"))
        || same(name, &chars_of("types"))
        || same(name, &chars_of("typing"))
        || same(name, &chars_of("unicodedata"))
        || same(name, &chars_of("unittest"))
        || same(name, &chars_of("urllib"))
        || same(name, &chars_of("uuid"))
        || same(name, &chars_of("venv"))
        || same(name, &chars_of("warnings"))
        || same(name, &chars_of("wave"))
        || same(name, &chars_of("weakref"))
        || same(name, &chars_of("webbrowser"))
        || same(name, &chars_of("xml"))
        || same(name, &chars_of("zipfile"))
        || same(name, &chars_of("zipimport"))
        || same(name, &chars_of("zlib"))
}

} // verus!
