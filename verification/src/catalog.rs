//! The command catalog: an ordered sequence of user-facing command
//! entries, and the three seed entries written when no stored catalog
//! exists yet.

use vstd::prelude::*;

verus! {

/// One catalog entry.  The admin flag is advisory only: it records whether
/// the command is expected to need elevated privileges.
#[derive(Debug, Clone, PartialEq)]
pub struct CommandData {
    pub id: String,
    pub category: String,
    pub subcategory: String,
    pub title: String,
    pub command: String,
    pub description: String,
    pub is_admin: bool,
}

/// The mathematical value of one entry.
pub struct CommandDataV {
    pub id: Seq<char>,
    pub category: Seq<char>,
    pub subcategory: Seq<char>,
    pub title: Seq<char>,
    pub command: Seq<char>,
    pub description: Seq<char>,
    pub is_admin: bool,
}

impl View for CommandData {
    type V = CommandDataV;

    open spec fn view(&self) -> CommandDataV {
        CommandDataV {
            id: self.id@,
            category: self.category@,
            subcategory: self.subcategory@,
            title: self.title@,
            command: self.command@,
            description: self.description@,
            is_admin: self.is_admin,
        }
    }
}

/// The mathematical value of a catalog: its entries in order.
pub open spec fn entries_view(v: Seq<CommandData>) -> Seq<CommandDataV> {
    v.map_values(|e: CommandData| e@)
}

/// A whole catalog: an ordered sequence of entries, overwritten wholesale
/// on save.
#[derive(Debug, Clone, PartialEq)]
pub struct CommandsFile {
    pub commands: Vec<CommandData>,
}

impl View for CommandsFile {
    type V = Seq<CommandDataV>;

    open spec fn view(&self) -> Seq<CommandDataV> {
        entries_view(self.commands@)
    }
}

/// The three seed entries of a freshly initialized catalog.
pub open spec fn default_commands_spec() -> Seq<CommandDataV> {
    seq![
        CommandDataV {
            id: "1"@,
            category: "Sistema"@,
            subcategory: "Atualizar Sistema"@,
            title: "Atualizar Sistema"@,
            command: "sudo pacman -Syu"@,
            description: "Atualiza todo o sistema e pacotes"@,
            is_admin: true,
        },
        CommandDataV {
            id: "2"@,
            category: "Pacotes"@,
            subcategory: "Instalar Pacote"@,
            title: "Instalar Pacote"@,
            command: "sudo pacman -S"@,
            description: "Instala um pacote específico"@,
            is_admin: true,
        },
        CommandDataV {
            id: "3"@,
            category: "Pacotes"@,
            subcategory: "Procurar Pacote"@,
            title: "Procurar Pacote"@,
            command: "pacman -Ss"@,
            description: "Procura por pacotes no repositório"@,
            is_admin: false,
        },
    ]
}

/// The default catalog, synthesized when no stored catalog exists.
pub fn get_default_commands() -> (r: CommandsFile)
    ensures
        r@ == default_commands_spec(),
{
    let mut commands: Vec<CommandData> = Vec::new();
    commands.push(
        CommandData {
            id: "1".to_owned(),
            category: "Sistema".to_owned(),
            subcategory: "Atualizar Sistema".to_owned(),
            title: "Atualizar Sistema".to_owned(),
            command: "sudo pacman -Syu".to_owned(),
            description: "Atualiza todo o sistema e pacotes".to_owned(),
            is_admin: true,
        },
    );
    commands.push(
        CommandData {
            id: "2".to_owned(),
            category: "Pacotes".to_owned(),
            subcategory: "Instalar Pacote".to_owned(),
            title: "Instalar Pacote".to_owned(),
            command: "sudo pacman -S".to_owned(),
            description: "Instala um pacote específico".to_owned(),
            is_admin: true,
        },
    );
    commands.push(
        CommandData {
            id: "3".to_owned(),
            category: "Pacotes".to_owned(),
            subcategory: "Procurar Pacote".to_owned(),
            title: "Procurar Pacote".to_owned(),
            command: "pacman -Ss".to_owned(),
            description: "Procura por pacotes no repositório".to_owned(),
            is_admin: false,
        },
    );
    let r = CommandsFile { commands };
    proof {
        assert(r@ =~= default_commands_spec());
    }
    r
}

} // verus!
