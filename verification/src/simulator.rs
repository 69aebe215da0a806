//! The command simulator: a pure preview that maps a few known command
//! strings to canned text and echoes anything else back.  It is used only
//! for in-app preview, never for real execution.

use vstd::prelude::*;
use vstd::string::StringExecFns;

verus! {

/// The canned preview text for each known command; any other command is
/// echoed back inside a generic message.
pub open spec fn preview_spec(c: Seq<char>) -> Seq<char> {
    if c == "sudo pacman -Syu"@ {
        "Sincronizando repositórios...\nAtualizando lista de pacotes...\nSistema atualizado com sucesso!"@
    } else if c == "sudo pacman -S"@ {
        "Por favor, especifique o nome do pacote. Exemplo: sudo pacman -S firefox"@
    } else if c == "pacman -Ss"@ {
        "Procurando pacotes...\nfirefox 115.0-1\nvim 9.0.2000-1\ngit 2.42.0-1\n..."@
    } else if c == "sudo pacman -Sc"@ {
        "Limpando cache...\nCache limpo com sucesso!"@
    } else if c == "uname -a"@ {
        "Linux archmie 6.5.0-arch1-1 #1 SMP PREEMPT_DYNAMIC Sat, 26 Aug 2023 07:30:17 +0000 x86_64 GNU/Linux"@
    } else if c == "df -h"@ {
        "Sist. Arq.      Tam. Usado Disp. Uso% Montado em\n/dev/nvme0n1p3  468G  256G  189G  58% /\ndevtmpfs        3,9G     0  3,9G   0% /dev"@
    } else {
        "Comando: "@ + c + "\nUse 'Abrir no Terminal' para executar no terminal nativo"@
    }
}

/// Simulate a command for preview.  The admin flag is advisory and never
/// changes the result; the call always succeeds.
#[allow(unused_variables)]
pub fn execute_command(command: String, is_admin: bool) -> (r: Result<String, String>)
    ensures
        r matches Ok(text) && text@ == preview_spec(command@),
{
    let text: String = if command == "sudo pacman -Syu".to_owned() {
        "Sincronizando repositórios...\nAtualizando lista de pacotes...\nSistema atualizado com sucesso!".to_owned()
    } else if command == "sudo pacman -S".to_owned() {
        "Por favor, especifique o nome do pacote. Exemplo: sudo pacman -S firefox".to_owned()
    } else if command == "pacman -Ss".to_owned() {
        "Procurando pacotes...\nfirefox 115.0-1\nvim 9.0.2000-1\ngit 2.42.0-1\n...".to_owned()
    } else if command == "sudo pacman -Sc".to_owned() {
        "Limpando cache...\nCache limpo com sucesso!".to_owned()
    } else if command == "uname -a".to_owned() {
        "Linux archmie 6.5.0-arch1-1 #1 SMP PREEMPT_DYNAMIC Sat, 26 Aug 2023 07:30:17 +0000 x86_64 GNU/Linux".to_owned()
    } else if command == "df -h".to_owned() {
        "Sist. Arq.      Tam. Usado Disp. Uso% Montado em\n/dev/nvme0n1p3  468G  256G  189G  58% /\ndevtmpfs        3,9G     0  3,9G   0% /dev".to_owned()
    } else {
        let mut t: String = "Comando: ".to_owned();
        t.append(command.as_str());
        t.append("\nUse 'Abrir no Terminal' para executar no terminal nativo");
        t
    };
    Ok(text)
}

} // verus!
