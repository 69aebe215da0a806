use archmie::simulator::execute_command;

#[test]
fn preview_of_search_lists_canned_package_lines() {
    let out = execute_command("pacman -Ss".to_string(), false).unwrap();
    assert!(out.contains("firefox 115.0-1"));
    assert!(out.contains("vim 9.0.2000-1"));
    assert!(out.contains("git 2.42.0-1"));
}

#[test]
fn preview_of_unknown_command_echoes_it_back() {
    let out = execute_command("some random text".to_string(), false).unwrap();
    assert!(out.contains("some random text"));
    assert_eq!(
        out,
        "Comando: some random text\nUse 'Abrir no Terminal' para executar no terminal nativo"
    );
}

#[test]
fn preview_knows_each_canned_command() {
    assert_eq!(
        execute_command("sudo pacman -Syu".to_string(), true).unwrap(),
        "Sincronizando repositórios...\nAtualizando lista de pacotes...\nSistema atualizado com sucesso!"
    );
    assert_eq!(
        execute_command("sudo pacman -S".to_string(), true).unwrap(),
        "Por favor, especifique o nome do pacote. Exemplo: sudo pacman -S firefox"
    );
    assert_eq!(
        execute_command("sudo pacman -Sc".to_string(), true).unwrap(),
        "Limpando cache...\nCache limpo com sucesso!"
    );
    assert_eq!(
        execute_command("uname -a".to_string(), false).unwrap(),
        "Linux archmie 6.5.0-arch1-1 #1 SMP PREEMPT_DYNAMIC Sat, 26 Aug 2023 07:30:17 +0000 x86_64 GNU/Linux"
    );
    assert_eq!(
        execute_command("df -h".to_string(), false).unwrap(),
        "Sist. Arq.      Tam. Usado Disp. Uso% Montado em\n/dev/nvme0n1p3  468G  256G  189G  58% /\ndevtmpfs        3,9G     0  3,9G   0% /dev"
    );
}

#[test]
fn preview_ignores_the_admin_flag() {
    let a = execute_command("pacman -Ss".to_string(), false).unwrap();
    let b = execute_command("pacman -Ss".to_string(), true).unwrap();
    assert_eq!(a, b);
}
