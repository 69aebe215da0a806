//! Builders for the transient wrapper texts handed to the host: a POSIX
//! shell snippet, a Windows command-interpreter line, and an Apple-desktop
//! automation instruction.  Each runs the user's command, reports its exit
//! status, and waits for an Enter keypress before closing.

use vstd::prelude::*;
use vstd::string::StringExecFns;
use crate::escape::apple_escape;
use crate::escape::escape_apple;
use crate::escape::escape_posix;
use crate::escape::quote_escape;

verus! {

/// The status-check, message and pause clauses appended to the command on
/// POSIX-like and Apple-desktop hosts.
pub open spec fn posix_wrapper_suffix() -> Seq<char> {
    "; status=$?; if [ $status -eq 0 ]; then echo \"\\nComando executado com sucesso (status $status).\"; else echo \"\\nComando falhou (status $status).\"; fi; echo \"\\nPressione Enter para fechar...\"; read -r"@
}

/// The wrapper script spawned on POSIX-like hosts, as one argument-vector
/// element of a `sh -c` invocation.
pub open spec fn posix_wrapper(command: Seq<char>) -> Seq<char> {
    quote_escape(command) + posix_wrapper_suffix()
}

/// The status-check, message and pause clauses appended to the command on
/// Windows-like hosts.
pub open spec fn windows_wrapper_suffix() -> Seq<char> {
    " & echo. & if %ERRORLEVEL%==0 (echo Comando executado com sucesso.) else (echo Comando falhou com codigo %ERRORLEVEL%) & echo. & set /p _=Pressione Enter para fechar..."@
}

/// The command-line string handed to the Windows command interpreter; the
/// user command itself is embedded unescaped.
pub open spec fn windows_cmdline(command: Seq<char>) -> Seq<char> {
    command + windows_wrapper_suffix()
}

/// The head of the Apple-desktop automation instruction, up to the opening
/// quote of the script text.
pub open spec fn apple_script_prefix() -> Seq<char> {
    "tell application \"Terminal\" to do script \""@
}

/// The automation instruction handed to the Apple-desktop script runner:
/// the escaped command plus the wrapper clauses, quoted as the argument of
/// a do-script call.
pub open spec fn apple_script(command: Seq<char>) -> Seq<char> {
    apple_script_prefix() + apple_escape(command) + posix_wrapper_suffix() + "\""@
}

/// Build the POSIX wrapper script for one command.
pub fn build_posix_wrapper(command: &str) -> (r: String)
    ensures
        r@ == posix_wrapper(command@),
{
    let mut out = escape_posix(command);
    out.append(
        "; status=$?; if [ $status -eq 0 ]; then echo \"\\nComando executado com sucesso (status $status).\"; else echo \"\\nComando falhou (status $status).\"; fi; echo \"\\nPressione Enter para fechar...\"; read -r",
    );
    out
}

/// Build the Windows command-interpreter line for one command.
pub fn build_windows_cmdline(command: &str) -> (r: String)
    ensures
        r@ == windows_cmdline(command@),
{
    let mut out = command.to_owned();
    out.append(
        " & echo. & if %ERRORLEVEL%==0 (echo Comando executado com sucesso.) else (echo Comando falhou com codigo %ERRORLEVEL%) & echo. & set /p _=Pressione Enter para fechar...",
    );
    out
}

/// Build the Apple-desktop automation instruction for one command.
pub fn build_apple_script(command: &str) -> (r: String)
    ensures
        r@ == apple_script(command@),
{
    let mut out: String = "tell application \"Terminal\" to do script \"".to_owned();
    let escaped = escape_apple(command);
    out.append(escaped.as_str());
    out.append(
        "; status=$?; if [ $status -eq 0 ]; then echo \"\\nComando executado com sucesso (status $status).\"; else echo \"\\nComando falhou (status $status).\"; fi; echo \"\\nPressione Enter para fechar...\"; read -r",
    );
    out.append("\"");
    out
}

} // verus!
